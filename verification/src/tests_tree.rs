//! The tests tree over a run, and why a second run leaves it alone.
//!
//! The tree is seen as the files in it, each path with its text. A run goes
//! through a list of source files; for each it is decided, on the tree as the
//! earlier files left it, what is to be done, and that is done.

use vstd::prelude::*;
use crate::config_file::ConfigModel;
use crate::failure::Failure;
use crate::generator::{dated_outcome, stub_decision, ActionModel, StubModel, TemplateModel};
use crate::path_mapper::{mappable, stub_dir, stub_name};
use crate::tree_path::PathModel;

verus! {

/// The path of a stub.
pub open spec fn stub_path(stub: StubModel) -> PathModel {
    stub.dir.child(stub.file_name)
}

/// Where the stub of the source file at `path` goes.
pub open spec fn target_of(path: PathModel, config: ConfigModel, template: TemplateModel)
    -> PathModel {
    stub_dir(path, config).child(stub_name(path, template.path))
}

/// The tree after what was decided for one file has been done: a stub that
/// was to be written is in it, and nothing else has changed.
pub open spec fn tree_after(
    tree: Map<PathModel, Seq<char>>,
    outcome: Result<ActionModel, Failure>,
) -> Map<PathModel, Seq<char>> {
    match outcome {
        Ok(ActionModel::Write(stub)) => tree.insert(stub_path(stub), stub.text),
        _ => tree,
    }
}

/// The tree after a run with these outcomes, in their order.
pub open spec fn tree_after_run(
    tree: Map<PathModel, Seq<char>>,
    outcomes: Seq<Result<ActionModel, Failure>>,
) -> Map<PathModel, Seq<char>>
    decreases outcomes.len(),
{
    if outcomes.len() == 0 {
        tree
    } else {
        tree_after_run(tree_after(tree, outcomes[0]), outcomes.skip(1))
    }
}

/// True where `outcomes` can be the outcomes of a run over `files` that
/// starts on `tree`: each is a decision for its file, taken on the tree as
/// the outcomes before it left it.
pub open spec fn run_of(
    tree: Map<PathModel, Seq<char>>,
    files: Seq<PathModel>,
    config: ConfigModel,
    template: TemplateModel,
    outcomes: Seq<Result<ActionModel, Failure>>,
) -> bool
    decreases files.len(),
{
    outcomes.len() == files.len() && (files.len() > 0 ==> {
        &&& stub_decision(
            files[0],
            config,
            template,
            tree.dom().contains(target_of(files[0], config, template)),
            outcomes[0],
        )
        &&& run_of(
            tree_after(tree, outcomes[0]),
            files.skip(1),
            config,
            template,
            outcomes.skip(1),
        )
    })
}

/// True where no template failure is among the outcomes.
pub open spec fn all_rendered(outcomes: Seq<Result<ActionModel, Failure>>) -> bool {
    forall|i: int|
        0 <= i < outcomes.len() ==> #[trigger] outcomes[i] != Err::<ActionModel, Failure>(
            Failure::TemplateRender,
        )
}

/// True where nothing is to be written.
pub open spec fn nothing_written(outcomes: Seq<Result<ActionModel, Failure>>) -> bool {
    forall|i: int|
        0 <= i < outcomes.len() ==> !(#[trigger] outcomes[i] matches Ok(ActionModel::Write(_)))
}

/// A decision never touches a file that is in the tree: the tree after it
/// holds every file it held, with the same text.
pub proof fn lemma_existing_files_stay(
    tree: Map<PathModel, Seq<char>>,
    path: PathModel,
    config: ConfigModel,
    template: TemplateModel,
    outcome: Result<ActionModel, Failure>,
)
    requires
        stub_decision(
            path,
            config,
            template,
            tree.dom().contains(target_of(path, config, template)),
            outcome,
        ),
    ensures
        forall|file: PathModel| #[trigger]
            tree.dom().contains(file) ==> tree_after(tree, outcome).dom().contains(file)
                && tree_after(tree, outcome)[file] == tree[file],
        tree_after(tree, outcome).dom().subset_of(tree.dom().insert(target_of(path, config, template))),
{
    if mappable(path, config) && !tree.dom().contains(target_of(path, config, template)) {
        let date = choose|date: Seq<char>|
            outcome == #[trigger] dated_outcome(path, config, template, date);
        assert(outcome == dated_outcome(path, config, template, date));
    }
}

/// After a decision that is no template failure, the stub of a file that has
/// one is in the tree.
pub proof fn lemma_stub_in_place(
    tree: Map<PathModel, Seq<char>>,
    path: PathModel,
    config: ConfigModel,
    template: TemplateModel,
    outcome: Result<ActionModel, Failure>,
)
    requires
        stub_decision(
            path,
            config,
            template,
            tree.dom().contains(target_of(path, config, template)),
            outcome,
        ),
        outcome != Err::<ActionModel, Failure>(Failure::TemplateRender),
        mappable(path, config),
    ensures
        tree_after(tree, outcome).dom().contains(target_of(path, config, template)),
{
    if !tree.dom().contains(target_of(path, config, template)) {
        let date = choose|date: Seq<char>|
            outcome == #[trigger] dated_outcome(path, config, template, date);
        assert(outcome == dated_outcome(path, config, template, date));
    }
}

/// A run only adds to the tree, and after a run without template failure the
/// stub of every file of the run that has one is in the tree.
pub proof fn lemma_run_puts_stubs_in_place(
    tree: Map<PathModel, Seq<char>>,
    files: Seq<PathModel>,
    config: ConfigModel,
    template: TemplateModel,
    outcomes: Seq<Result<ActionModel, Failure>>,
)
    requires
        run_of(tree, files, config, template, outcomes),
        all_rendered(outcomes),
    ensures
        tree.dom().subset_of(tree_after_run(tree, outcomes).dom()),
        forall|i: int|
            0 <= i < files.len() && mappable(#[trigger] files[i], config) ==> tree_after_run(
                tree,
                outcomes,
            ).dom().contains(target_of(files[i], config, template)),
    decreases files.len(),
{
    if files.len() > 0 {
        let next = tree_after(tree, outcomes[0]);
        lemma_existing_files_stay(tree, files[0], config, template, outcomes[0]);
        assert(all_rendered(outcomes.skip(1))) by {
            assert forall|i: int| 0 <= i < outcomes.skip(1).len() implies #[trigger] outcomes.skip(
                1,
            )[i] != Err::<ActionModel, Failure>(Failure::TemplateRender) by {
                assert(outcomes.skip(1)[i] == outcomes[i + 1]);
            }
        }
        lemma_run_puts_stubs_in_place(next, files.skip(1), config, template, outcomes.skip(1));
        let last = tree_after_run(tree, outcomes);
        assert(last == tree_after_run(next, outcomes.skip(1)));
        assert forall|i: int| 0 <= i < files.len() && mappable(
            #[trigger] files[i],
            config,
        ) implies last.dom().contains(target_of(files[i], config, template)) by {
            if i == 0 {
                lemma_stub_in_place(tree, files[0], config, template, outcomes[0]);
            } else {
                assert(files.skip(1)[i - 1] == files[i]);
            }
        }
    }
}

/// A run over files whose stubs are all in place writes nothing and leaves
/// the tree as it is.
pub proof fn lemma_run_on_stubs_in_place(
    tree: Map<PathModel, Seq<char>>,
    files: Seq<PathModel>,
    config: ConfigModel,
    template: TemplateModel,
    outcomes: Seq<Result<ActionModel, Failure>>,
)
    requires
        run_of(tree, files, config, template, outcomes),
        forall|i: int|
            0 <= i < files.len() && mappable(#[trigger] files[i], config) ==> tree.dom().contains(
                target_of(files[i], config, template),
            ),
    ensures
        nothing_written(outcomes),
        tree_after_run(tree, outcomes) == tree,
    decreases files.len(),
{
    if files.len() > 0 {
        assert(mappable(files[0], config) ==> tree.dom().contains(
            target_of(files[0], config, template),
        ));
        assert(tree_after(tree, outcomes[0]) == tree);
        assert forall|i: int| 0 <= i < files.skip(1).len() && mappable(
            #[trigger] files.skip(1)[i],
            config,
        ) implies tree.dom().contains(target_of(files.skip(1)[i], config, template)) by {
            assert(files.skip(1)[i] == files[i + 1]);
        }
        lemma_run_on_stubs_in_place(tree, files.skip(1), config, template, outcomes.skip(1));
        assert forall|i: int| 0 <= i < outcomes.len() implies !(#[trigger] outcomes[i] matches Ok(
            ActionModel::Write(_),
        )) by {
            if i > 0 {
                assert(outcomes.skip(1)[i - 1] == outcomes[i]);
            }
        }
    }
}

/// A second run over the same files changes nothing: after a first run
/// without template failure, whatever a second run over the same files
/// decides, it writes no file, and the tree after it is the tree after the
/// first.
pub proof fn lemma_second_run_changes_nothing(
    tree: Map<PathModel, Seq<char>>,
    files: Seq<PathModel>,
    config: ConfigModel,
    template: TemplateModel,
    first: Seq<Result<ActionModel, Failure>>,
    second: Seq<Result<ActionModel, Failure>>,
)
    requires
        run_of(tree, files, config, template, first),
        all_rendered(first),
        run_of(tree_after_run(tree, first), files, config, template, second),
    ensures
        nothing_written(second),
        tree_after_run(tree_after_run(tree, first), second) == tree_after_run(tree, first),
{
    lemma_run_puts_stubs_in_place(tree, files, config, template, first);
    lemma_run_on_stubs_in_place(tree_after_run(tree, first), files, config, template, second);
}

} // verus!
