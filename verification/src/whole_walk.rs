//! The walk as a whole, on a tree that is known.
//!
//! One step of the walk says little about where the walk leads. Here the
//! tree is given: each directory with its listing. A caller that lists from
//! this tree and reports on each file takes the walk through all of it, and
//! the files that the walk hands out are those that a descent through the
//! tree finds: every file that takes part, in a directory to which only
//! directories that take part lead, depth first, in the order of the
//! listings.

use vstd::prelude::*;
use crate::config_file::{folders_of, ConfigModel};
use crate::failure::Failure;
use crate::name_filter::EntryKind;
use crate::tree_path::PathModel;
use crate::tree_walker::{
    advance,
    past_first,
    start,
    step,
    takes_part,
    EntryModel,
    EventModel,
    FrameModel,
    PendingModel,
    WalkModel,
};

verus! {

/// True where the first of `entries` is a directory that takes part.
pub open spec fn opens_directory(entries: Seq<EntryModel>, config: ConfigModel) -> bool {
    entries.len() > 0 && takes_part(entries[0], config) && entries[0].kind == EntryKind::Directory
}

/// True where the first of `entries` is a file that takes part.
pub open spec fn names_file(entries: Seq<EntryModel>, config: ConfigModel) -> bool {
    entries.len() > 0 && takes_part(entries[0], config) && entries[0].kind != EntryKind::Directory
}

/// True where every directory that a descent from the entries `entries` of
/// `dir` comes to is in `tree`, and none of them lies more than `depth`
/// levels below `dir`.
pub open spec fn listable(
    tree: Map<PathModel, Seq<EntryModel>>,
    dir: PathModel,
    entries: Seq<EntryModel>,
    config: ConfigModel,
    depth: nat,
) -> bool
    decreases depth, entries.len(),
{
    if entries.len() == 0 {
        true
    } else if opens_directory(entries, config) {
        let child = dir.child(entries[0].name->0);
        if depth > 0 && tree.dom().contains(child) {
            listable(tree, child, tree[child], config, (depth - 1) as nat) && listable(
                tree,
                dir,
                entries.skip(1),
                config,
                depth,
            )
        } else {
            false
        }
    } else {
        listable(tree, dir, entries.skip(1), config, depth)
    }
}

/// The files that a descent from the entries `entries` of `dir` finds, in
/// its order: a file that takes part is found where it stands, a directory
/// that takes part gives what a descent from its own entries finds, and
/// every other entry gives nothing.
pub open spec fn files_in(
    tree: Map<PathModel, Seq<EntryModel>>,
    dir: PathModel,
    entries: Seq<EntryModel>,
    config: ConfigModel,
    depth: nat,
) -> Seq<PathModel>
    decreases depth, entries.len(),
{
    if entries.len() == 0 {
        Seq::empty()
    } else if opens_directory(entries, config) {
        let child = dir.child(entries[0].name->0);
        if depth > 0 {
            files_in(tree, child, tree[child], config, (depth - 1) as nat) + files_in(
                tree,
                dir,
                entries.skip(1),
                config,
                depth,
            )
        } else {
            Seq::empty()
        }
    } else if names_file(entries, config) {
        seq![dir.child(entries[0].name->0)] + files_in(tree, dir, entries.skip(1), config, depth)
    } else {
        files_in(tree, dir, entries.skip(1), config, depth)
    }
}

/// The number of steps that the walk takes for the entries `entries` of
/// `dir`: one for each file that it hands out and one for each directory
/// that it has listed.
pub open spec fn steps_in(
    tree: Map<PathModel, Seq<EntryModel>>,
    dir: PathModel,
    entries: Seq<EntryModel>,
    config: ConfigModel,
    depth: nat,
) -> nat
    decreases depth, entries.len(),
{
    if entries.len() == 0 {
        0
    } else if opens_directory(entries, config) {
        let child = dir.child(entries[0].name->0);
        if depth > 0 {
            1 + steps_in(tree, child, tree[child], config, (depth - 1) as nat) + steps_in(
                tree,
                dir,
                entries.skip(1),
                config,
                depth,
            )
        } else {
            0
        }
    } else if names_file(entries, config) {
        1 + steps_in(tree, dir, entries.skip(1), config, depth)
    } else {
        steps_in(tree, dir, entries.skip(1), config, depth)
    }
}

/// What a caller reports who lists from `tree` and for whom the stub of a
/// file fails as `verdict` says.
pub open spec fn report_on(
    tree: Map<PathModel, Seq<EntryModel>>,
    verdict: spec_fn(PathModel) -> Option<Failure>,
    waiting: PendingModel,
) -> EventModel {
    match waiting {
        PendingModel::List(dir) => if tree.dom().contains(dir) {
            EventModel::Listed(tree[dir])
        } else {
            EventModel::ListFailed
        },
        PendingModel::Generate(file) => EventModel::Handled(verdict(file)),
        _ => EventModel::ListFailed,
    }
}

/// The walk after `steps` steps with such a caller.
pub open spec fn walk_on(
    walk: WalkModel,
    tree: Map<PathModel, Seq<EntryModel>>,
    verdict: spec_fn(PathModel) -> Option<Failure>,
    steps: nat,
) -> WalkModel
    decreases steps,
{
    if steps == 0 {
        walk
    } else {
        walk_on(
            step(walk, report_on(tree, verdict, walk.waiting)),
            tree,
            verdict,
            (steps - 1) as nat,
        )
    }
}

/// The file that the walk waits for, if it waits for one.
pub open spec fn file_waited_for(waiting: PendingModel) -> Seq<PathModel> {
    match waiting {
        PendingModel::Generate(file) => seq![file],
        _ => Seq::empty(),
    }
}

/// The files that the walk hands out in its next `steps` steps, in their
/// order.
pub open spec fn handed_out(
    walk: WalkModel,
    tree: Map<PathModel, Seq<EntryModel>>,
    verdict: spec_fn(PathModel) -> Option<Failure>,
    steps: nat,
) -> Seq<PathModel>
    decreases steps,
{
    if steps == 0 {
        Seq::empty()
    } else {
        file_waited_for(walk.waiting) + handed_out(
            step(walk, report_on(tree, verdict, walk.waiting)),
            tree,
            verdict,
            (steps - 1) as nat,
        )
    }
}

/// Those of `files` whose stub fails, each with its failure, in their order.
pub open spec fn noted(files: Seq<PathModel>, verdict: spec_fn(PathModel) -> Option<Failure>)
    -> Seq<(PathModel, Failure)>
    decreases files.len(),
{
    if files.len() == 0 {
        Seq::empty()
    } else {
        match verdict(files[0]) {
            Some(why) => seq![(files[0], why)] + noted(files.skip(1), verdict),
            None => noted(files.skip(1), verdict),
        }
    }
}

/// The walk as it is after it has moved on from the open directories
/// `frames`.
pub open spec fn moved_on(walk: WalkModel, frames: Seq<FrameModel>) -> WalkModel {
    WalkModel {
        frames: advance(frames, walk.config).0,
        waiting: advance(frames, walk.config).1,
        ..walk
    }
}

/// Steps add up: first `a` steps and then `b` are `a + b` steps, and what
/// is handed out in them is what is handed out in the first `a` and then in
/// the next `b`.
pub proof fn lemma_steps_add_up(
    walk: WalkModel,
    tree: Map<PathModel, Seq<EntryModel>>,
    verdict: spec_fn(PathModel) -> Option<Failure>,
    a: nat,
    b: nat,
)
    ensures
        walk_on(walk, tree, verdict, a + b) == walk_on(walk_on(walk, tree, verdict, a), tree, verdict, b),
        handed_out(walk, tree, verdict, a + b) == handed_out(walk, tree, verdict, a) + handed_out(
            walk_on(walk, tree, verdict, a),
            tree,
            verdict,
            b,
        ),
    decreases a,
{
    if a > 0 {
        let next = step(walk, report_on(tree, verdict, walk.waiting));
        lemma_steps_add_up(next, tree, verdict, (a - 1) as nat, b);
        assert(((a + b) - 1) as nat == (a - 1) as nat + b);
        assert(handed_out(walk, tree, verdict, a + b) =~= handed_out(walk, tree, verdict, a)
            + handed_out(walk_on(walk, tree, verdict, a), tree, verdict, b));
    } else {
        assert(handed_out(walk, tree, verdict, a + b) =~= handed_out(walk, tree, verdict, a)
            + handed_out(walk_on(walk, tree, verdict, a), tree, verdict, b));
    }
}

/// What is noted of two runs of files is what is noted of the first and
/// then of the second.
pub proof fn lemma_noted_add_up(
    first: Seq<PathModel>,
    second: Seq<PathModel>,
    verdict: spec_fn(PathModel) -> Option<Failure>,
)
    ensures
        noted(first + second, verdict) == noted(first, verdict) + noted(second, verdict),
    decreases first.len(),
{
    if first.len() == 0 {
        assert(first + second =~= second);
        assert(noted(first, verdict) + noted(second, verdict) =~= noted(second, verdict));
    } else {
        assert((first + second).skip(1) =~= first.skip(1) + second);
        lemma_noted_add_up(first.skip(1), second, verdict);
        assert(noted(first + second, verdict) =~= noted(first, verdict) + noted(second, verdict));
    }
}

/// The walk through one directory: from where it has moved on into the
/// entries `entries` of `dir`, it hands out the files that a descent from
/// them finds, notes those that fail, and is then where it would be had it
/// moved on from the directories above.
pub proof fn lemma_directory_walked(
    walk: WalkModel,
    frames: Seq<FrameModel>,
    dir: PathModel,
    entries: Seq<EntryModel>,
    tree: Map<PathModel, Seq<EntryModel>>,
    verdict: spec_fn(PathModel) -> Option<Failure>,
    depth: nat,
)
    requires
        listable(tree, dir, entries, walk.config, depth),
    ensures
        ({
            let from = moved_on(walk, frames.push(FrameModel { dir, rest: entries }));
            let files = files_in(tree, dir, entries, walk.config, depth);
            let steps = steps_in(tree, dir, entries, walk.config, depth);
            &&& handed_out(from, tree, verdict, steps) == files
            &&& walk_on(from, tree, verdict, steps) == moved_on(
                WalkModel { failed: walk.failed + noted(files, verdict), ..walk },
                frames,
            )
        }),
    decreases depth, entries.len(),
{
    let config = walk.config;
    let opened = frames.push(FrameModel { dir, rest: entries });
    let from = moved_on(walk, opened);
    let files = files_in(tree, dir, entries, config, depth);
    let steps = steps_in(tree, dir, entries, config, depth);
    assert(opened.drop_last() =~= frames);
    if entries.len() == 0 {
        assert(walk.failed + noted(files, verdict) =~= walk.failed);
    } else {
        let rest = frames.push(FrameModel { dir, rest: entries.skip(1) });
        assert(past_first(opened) =~= rest);
        let rest_files = files_in(tree, dir, entries.skip(1), config, depth);
        let rest_steps = steps_in(tree, dir, entries.skip(1), config, depth);
        let child = dir.child(entries[0].name->0);
        if opens_directory(entries, config) {
            let below_files = files_in(tree, child, tree[child], config, (depth - 1) as nat);
            let below_steps = steps_in(tree, child, tree[child], config, (depth - 1) as nat);
            let listed = step(from, report_on(tree, verdict, from.waiting));
            assert(listed == moved_on(
                walk,
                rest.push(FrameModel { dir: child, rest: tree[child] }),
            ));
            lemma_directory_walked(
                walk,
                rest,
                child,
                tree[child],
                tree,
                verdict,
                (depth - 1) as nat,
            );
            let back = WalkModel { failed: walk.failed + noted(below_files, verdict), ..walk };
            lemma_directory_walked(back, frames, dir, entries.skip(1), tree, verdict, depth);
            lemma_steps_add_up(listed, tree, verdict, below_steps, rest_steps);
            lemma_noted_add_up(below_files, rest_files, verdict);
            assert(back.failed + noted(rest_files, verdict) =~= walk.failed + noted(
                files,
                verdict,
            ));
            assert((steps - 1) as nat == below_steps + rest_steps);
            assert(handed_out(from, tree, verdict, steps) =~= files);
        } else if names_file(entries, config) {
            let handled = step(from, report_on(tree, verdict, from.waiting));
            let back = WalkModel {
                failed: walk.failed + noted(seq![child], verdict),
                ..walk
            };
            assert(noted(seq![child], verdict) =~= match verdict(child) {
                Some(why) => seq![(child, why)],
                None => Seq::empty(),
            }) by {
                assert(noted(seq![child].skip(1), verdict) =~= Seq::empty());
            }
            assert(handled.failed =~= back.failed);
            assert(handled == moved_on(back, rest));
            lemma_directory_walked(back, frames, dir, entries.skip(1), tree, verdict, depth);
            lemma_noted_add_up(seq![child], rest_files, verdict);
            assert(back.failed + noted(rest_files, verdict) =~= walk.failed + noted(
                files,
                verdict,
            ));
            assert(handed_out(from, tree, verdict, steps) =~= files);
        } else {
            lemma_directory_walked(walk, frames, dir, entries.skip(1), tree, verdict, depth);
        }
    }
}

/// The walk covers the tree. Where every directory that a descent from the
/// sources root comes to can be listed, the walk ends after the steps that
/// the tree takes. It has then handed out the files that the descent finds,
/// each where the descent finds it, and has noted those that failed.
pub proof fn lemma_walk_covers_tree(
    config: ConfigModel,
    tree: Map<PathModel, Seq<EntryModel>>,
    verdict: spec_fn(PathModel) -> Option<Failure>,
    depth: nat,
)
    requires
        tree.dom().contains(folders_of(config).sources),
        listable(tree, folders_of(config).sources, tree[folders_of(config).sources], config, depth),
    ensures
        ({
            let sources = folders_of(config).sources;
            let files = files_in(tree, sources, tree[sources], config, depth);
            let steps = 1 + steps_in(tree, sources, tree[sources], config, depth);
            let end = walk_on(start(config), tree, verdict, steps);
            &&& end.waiting == PendingModel::Finished
            &&& end.frames == Seq::<FrameModel>::empty()
            &&& end.failed == noted(files, verdict)
            &&& handed_out(start(config), tree, verdict, steps) == files
        }),
{
    let sources = folders_of(config).sources;
    let begin = start(config);
    let files = files_in(tree, sources, tree[sources], config, depth);
    let steps = steps_in(tree, sources, tree[sources], config, depth);
    let listed = step(begin, report_on(tree, verdict, begin.waiting));
    assert(listed == moved_on(
        begin,
        Seq::<FrameModel>::empty().push(FrameModel { dir: sources, rest: tree[sources] }),
    ));
    lemma_directory_walked(begin, Seq::empty(), sources, tree[sources], tree, verdict, depth);
    assert(begin.failed + noted(files, verdict) =~= noted(files, verdict));
    assert(handed_out(begin, tree, verdict, 1 + steps) =~= handed_out(
        listed,
        tree,
        verdict,
        steps,
    ));
}

} // verus!
