//! The walk through the sources tree, one step at a time.
//!
//! The walker lists nothing and writes nothing. It says what it waits for:
//! the listing of a directory, or the stub of a file. The caller does that and
//! reports back, and the walker moves on. Directories are walked depth first,
//! their entries in the order of the listing. An entry that does not take
//! part is passed over: a directory of that kind is never listed.
//!
//! A directory that cannot be listed ends the walk. A file whose stub fails is
//! noted and the walk goes on.

use vstd::prelude::*;
use vstd::string::*;
use crate::config_file::{folders_of, ConfigModel, FolderPaths, InitFile};
use crate::failure::Failure;
use crate::name_filter::{
    eligible,
    extension_token,
    hidden_name,
    name_is_hidden,
    name_is_valid,
    EntryKind,
};
use crate::path_mapper::mappable;
use crate::tree_path::{PathModel, TreePath};

verus! {

/// One entry of a listed directory.
#[derive(Debug)]
pub struct DirEntry {
    /// The entry's name; none where the name cannot be read as text.
    pub name: Option<String>,
    /// What the entry is.
    pub kind: EntryKind,
}

/// What a `DirEntry` stands for.
pub ghost struct EntryModel {
    pub name: Option<Seq<char>>,
    pub kind: EntryKind,
}

impl View for DirEntry {
    type V = EntryModel;

    open spec fn view(&self) -> EntryModel {
        EntryModel {
            name: match self.name {
                Some(name) => Some(name@),
                None => None,
            },
            kind: self.kind,
        }
    }
}

/// A listing as the contracts see it.
pub open spec fn entries_of(list: Seq<DirEntry>) -> Seq<EntryModel> {
    Seq::new(list.len(), |i: int| list[i]@)
}

/// What the walker waits for.
#[derive(Debug)]
pub enum WalkAction {
    /// The listing of this directory.
    List(TreePath),
    /// The stub of this file.
    Generate(TreePath),
    /// Nothing: the walk is over.
    Finished,
    /// Nothing: the walk ended when this directory could not be listed.
    Aborted(TreePath),
}

/// What a `WalkAction` stands for.
pub ghost enum PendingModel {
    List(PathModel),
    Generate(PathModel),
    Finished,
    Aborted(PathModel),
}

impl View for WalkAction {
    type V = PendingModel;

    open spec fn view(&self) -> PendingModel {
        match self {
            WalkAction::List(dir) => PendingModel::List(dir@),
            WalkAction::Generate(file) => PendingModel::Generate(file@),
            WalkAction::Finished => PendingModel::Finished,
            WalkAction::Aborted(dir) => PendingModel::Aborted(dir@),
        }
    }
}

impl Clone for WalkAction {
    fn clone(&self) -> (copy: Self)
        ensures
            copy@ == self@,
    {
        match self {
            WalkAction::List(dir) => WalkAction::List(dir.clone()),
            WalkAction::Generate(file) => WalkAction::Generate(file.clone()),
            WalkAction::Finished => WalkAction::Finished,
            WalkAction::Aborted(dir) => WalkAction::Aborted(dir.clone()),
        }
    }
}

/// What the caller reports.
#[derive(Debug)]
pub enum WalkEvent {
    /// The directory has been listed: these are its entries.
    Listed(Vec<DirEntry>),
    /// The directory could not be listed.
    ListFailed,
    /// The file has been dealt with: its stub is in place, or it failed.
    Handled(Option<Failure>),
}

/// What a `WalkEvent` stands for.
pub ghost enum EventModel {
    Listed(Seq<EntryModel>),
    ListFailed,
    Handled(Option<Failure>),
}

impl View for WalkEvent {
    type V = EventModel;

    open spec fn view(&self) -> EventModel {
        match self {
            WalkEvent::Listed(entries) => EventModel::Listed(entries_of(entries@)),
            WalkEvent::ListFailed => EventModel::ListFailed,
            WalkEvent::Handled(failure) => EventModel::Handled(*failure),
        }
    }
}

/// A file whose stub failed, and why.
#[derive(Debug)]
pub struct FailedFile {
    /// The source file.
    pub path: TreePath,
    /// What the caller reported of it.
    pub failure: Failure,
}

/// Failed files as the contracts see them.
pub open spec fn failures_of(list: Seq<FailedFile>) -> Seq<(PathModel, Failure)> {
    Seq::new(list.len(), |i: int| (list[i].path@, list[i].failure))
}

/// A directory that is being walked: its path, and the entries that are
/// still to come.
pub ghost struct FrameModel {
    pub dir: PathModel,
    pub rest: Seq<EntryModel>,
}

/// The state of a walk: the settings, the directories that are open, the
/// innermost last, what the walker waits for, and the files that failed.
pub ghost struct WalkModel {
    pub config: ConfigModel,
    pub frames: Seq<FrameModel>,
    pub waiting: PendingModel,
    pub failed: Seq<(PathModel, Failure)>,
}

/// True for an entry that takes part in the walk.
pub open spec fn takes_part(entry: EntryModel, config: ConfigModel) -> bool {
    entry.name is Some && eligible(entry.name->0, entry.kind, config)
}

/// The open directories without the first entry of the innermost.
pub open spec fn past_first(frames: Seq<FrameModel>) -> Seq<FrameModel> {
    frames.drop_last().push(FrameModel { dir: frames.last().dir, rest: frames.last().rest.skip(1) })
}

/// Moves on to the next entry that takes part. Entries that do not are
/// passed over, and a directory without entries to come is left. What
/// remains open, and what the walker then waits for.
pub open spec fn advance(frames: Seq<FrameModel>, config: ConfigModel) -> (
    Seq<FrameModel>,
    PendingModel,
)
    decreases frames.len(), (if frames.len() > 0 { frames.last().rest.len() } else { 0 }),
{
    if frames.len() == 0 {
        (frames, PendingModel::Finished)
    } else if frames.last().rest.len() == 0 {
        advance(frames.drop_last(), config)
    } else {
        let entry = frames.last().rest[0];
        if !takes_part(entry, config) {
            advance(past_first(frames), config)
        } else if entry.kind == EntryKind::Directory {
            (past_first(frames), PendingModel::List(frames.last().dir.child(entry.name->0)))
        } else {
            (past_first(frames), PendingModel::Generate(frames.last().dir.child(entry.name->0)))
        }
    }
}

/// The walk before its first step: it waits for the listing of the sources
/// root.
pub open spec fn start(config: ConfigModel) -> WalkModel {
    WalkModel {
        config,
        frames: Seq::empty(),
        waiting: PendingModel::List(folders_of(config).sources),
        failed: Seq::empty(),
    }
}

/// The walk after `event`.
///
/// A listing opens the directory that was waited for, and the walk moves on
/// to the first entry that takes part. A listing that failed ends the walk.
/// A file that was dealt with is noted if it failed, and the walk moves on.
/// An event that was not waited for changes nothing.
pub open spec fn step(walk: WalkModel, event: EventModel) -> WalkModel {
    match (walk.waiting, event) {
        (PendingModel::List(dir), EventModel::Listed(entries)) => {
            let opened = walk.frames.push(FrameModel { dir, rest: entries });
            WalkModel {
                frames: advance(opened, walk.config).0,
                waiting: advance(opened, walk.config).1,
                ..walk
            }
        },
        (PendingModel::List(dir), EventModel::ListFailed) => WalkModel {
            waiting: PendingModel::Aborted(dir),
            ..walk
        },
        (PendingModel::Generate(file), EventModel::Handled(failure)) => WalkModel {
            frames: advance(walk.frames, walk.config).0,
            waiting: advance(walk.frames, walk.config).1,
            failed: match failure {
                Some(why) => walk.failed.push((file, why)),
                None => walk.failed,
            },
            ..walk
        },
        _ => walk,
    }
}

/// True for a directory that the walk may list: the sources root, or a
/// directory below it to which only directories that take part lead.
pub open spec fn walked_dir(dir: PathModel, config: ConfigModel) -> bool {
    let sources = folders_of(config).sources;
    dir.is_under(sources) && forall|k: int|
        0 <= k < dir.below(sources).len() ==> eligible(
            #[trigger] dir.below(sources)[k],
            EntryKind::Directory,
            config,
        )
}

/// True for a file that the walk may hand out: a file that takes part, in a
/// directory that the walk may list.
pub open spec fn walked_file(file: PathModel, config: ConfigModel) -> bool {
    file.parts.len() > 0 && walked_dir(file.parent()->0, config) && eligible(
        file.parts.last(),
        EntryKind::File,
        config,
    )
}

/// True where what the walker waits for is a directory or a file that the
/// walk may reach.
pub open spec fn within_walk(waiting: PendingModel, config: ConfigModel) -> bool {
    match waiting {
        PendingModel::List(dir) => walked_dir(dir, config),
        PendingModel::Generate(file) => walked_file(file, config),
        PendingModel::Finished => true,
        PendingModel::Aborted(dir) => walked_dir(dir, config),
    }
}

/// Below a directory of the walk, a directory that takes part is one too.
pub proof fn lemma_walked_child_dir(dir: PathModel, name: Seq<char>, config: ConfigModel)
    requires
        walked_dir(dir, config),
        eligible(name, EntryKind::Directory, config),
    ensures
        walked_dir(dir.child(name), config),
{
    let sources = folders_of(config).sources;
    assert(dir.child(name).below(sources) =~= dir.below(sources).push(name));
}

/// In a directory of the walk, a file that takes part is a file of the walk.
pub proof fn lemma_walked_child_file(dir: PathModel, name: Seq<char>, config: ConfigModel)
    requires
        walked_dir(dir, config),
        eligible(name, EntryKind::File, config),
    ensures
        walked_file(dir.child(name), config),
{
    assert(dir.child(name).parts.drop_last() =~= dir.parts);
}

/// Every file that the walk hands out has a stub: on the walk the mapping
/// from source file to stub never fails.
pub proof fn lemma_walked_file_mappable(file: PathModel, config: ConfigModel)
    requires
        walked_file(file, config),
    ensures
        mappable(file, config),
{
    if file.parts.last() == seq!['.', '.'] {
        assert(file.parts.last()[0] == '.');
    }
}

/// The walk obeys the filter all the way down: no name that leads from the
/// sources root to a file of the walk is hidden or excluded, the file's own
/// name is neither, and its extension is accepted.
pub proof fn lemma_walk_obeys_filter(file: PathModel, config: ConfigModel)
    requires
        walked_file(file, config),
    ensures
        forall|k: int|
            0 <= k < file.below(folders_of(config).sources).len() ==> !hidden_name(
                #[trigger] file.below(folders_of(config).sources)[k],
            ) && !config.folder_file_exceptions.contains(file.below(folders_of(config).sources)[k]),
        config.file_extension.contains(extension_token(file.parts.last())),
{
    let sources = folders_of(config).sources;
    let dir = file.parent()->0;
    assert forall|k: int| 0 <= k < file.below(sources).len() implies !hidden_name(
        #[trigger] file.below(sources)[k],
    ) && !config.folder_file_exceptions.contains(file.below(sources)[k]) by {
        if k < dir.below(sources).len() {
            assert(file.below(sources)[k] == dir.below(sources)[k]);
        } else {
            assert(file.below(sources)[k] == file.parts.last());
        }
    }
}

/// A directory that is being walked.
#[derive(Debug)]
struct Frame {
    dir: TreePath,
    entries: Vec<DirEntry>,
    next: usize,
}

impl Frame {
    spec fn well_formed(&self, config: ConfigModel) -> bool {
        self.next <= self.entries.len() && walked_dir(self.dir@, config)
    }

    spec fn model(&self) -> FrameModel {
        FrameModel { dir: self.dir@, rest: entries_of(self.entries@).skip(self.next as int) }
    }
}

spec fn frames_of(frames: Seq<Frame>) -> Seq<FrameModel> {
    Seq::new(frames.len(), |i: int| frames[i].model())
}

spec fn frames_well_formed(frames: Seq<Frame>, config: ConfigModel) -> bool {
    forall|i: int| 0 <= i < frames.len() ==> (#[trigger] frames[i]).well_formed(config)
}

/// A walk through the sources tree.
#[derive(Debug)]
pub struct TreeWalker {
    config: InitFile,
    frames: Vec<Frame>,
    waiting: WalkAction,
    failed: Vec<FailedFile>,
}

impl View for TreeWalker {
    type V = WalkModel;

    closed spec fn view(&self) -> WalkModel {
        WalkModel {
            config: self.config@,
            frames: frames_of(self.frames@),
            waiting: self.waiting@,
            failed: failures_of(self.failed@),
        }
    }
}

/// Moves on to the next entry that takes part.
fn advance_frames(frames: Vec<Frame>, config: &InitFile) -> (out: (Vec<Frame>, WalkAction))
    requires
        frames_well_formed(frames@, config@),
    ensures
        frames_well_formed(out.0@, config@),
        within_walk(out.1@, config@),
        (frames_of(out.0@), out.1@) == advance(frames_of(frames@), config@),
{
    let mut open = frames;
    loop
        invariant
            frames_well_formed(open@, config@),
            advance(frames_of(open@), config@) == advance(frames_of(frames@), config@),
        decreases open@.len(), (if open@.len() > 0 { open@.last().model().rest.len() } else { 0 }),
    {
        let ghost before = open@;
        let top = match open.pop() {
            Some(top) => top,
            None => {
                return (open, WalkAction::Finished);
            },
        };
        proof {
            assert(top == before.last());
            assert(top.well_formed(config@));
            assert(frames_of(open@) =~= frames_of(before).drop_last());
            assert(frames_of(before).last() == top.model());
            assert forall|i: int| 0 <= i < open@.len() implies (#[trigger] open@[i]).well_formed(
                config@,
            ) by {
                assert(open@[i] == before[i]);
            }
        }
        let Frame { dir, entries, next } = top;
        if next < entries.len() {
            let child = match &entries[next].name {
                Some(name) => {
                    if !name_is_hidden(name.as_str()) && name_is_valid(
                        name,
                        entries[next].kind,
                        config,
                    ) {
                        Some(dir.child(name.as_str()))
                    } else {
                        None
                    }
                },
                None => None,
            };
            let kind = entries[next].kind;
            let ghost entry = entries@[next as int]@;
            let ghost dir_model = dir@;
            proof {
                assert(top.model().rest[0] == entry);
                assert(entries_of(entries@).skip(next as int).skip(1) =~= entries_of(entries@).skip(
                    next + 1,
                ));
            }
            let ghost left = open@;
            open.push(Frame { dir, entries, next: next + 1 });
            proof {
                assert(frames_of(open@) =~= past_first(frames_of(before)));
                assert forall|i: int| 0 <= i < open@.len() implies (#[trigger] open@[i]).well_formed(
                    config@,
                ) by {
                    if i < open@.len() - 1 {
                        assert(open@[i] == left[i]);
                    }
                }
            }
            match child {
                Some(path) => {
                    proof {
                        assert(takes_part(entry, config@));
                        if kind == EntryKind::Directory {
                            lemma_walked_child_dir(dir_model, entry.name->0, config@);
                        } else {
                            lemma_walked_child_file(dir_model, entry.name->0, config@);
                        }
                    }
                    match kind {
                        EntryKind::Directory => {
                            return (open, WalkAction::List(path));
                        },
                        _ => {
                            return (open, WalkAction::Generate(path));
                        },
                    }
                },
                None => {
                    proof {
                        assert(!takes_part(entry, config@));
                    }
                },
            }
        } else {
            proof {
                assert(top.model().rest.len() == 0);
            }
        }
    }
}

impl TreeWalker {
    #[verifier::type_invariant]
    spec fn well_formed(self) -> bool {
        frames_well_formed(self.frames@, self.config@) && within_walk(self.waiting@, self.config@)
    }

    /// A walk that has not begun: it waits for the listing of the sources
    /// root of `config`.
    pub fn new(config: InitFile) -> (walker: TreeWalker)
        ensures
            walker@ == start(config@),
    {
        let folders = FolderPaths::from(&config);
        let walker = TreeWalker {
            config,
            frames: Vec::new(),
            waiting: WalkAction::List(folders.sources),
            failed: Vec::new(),
        };
        proof {
            assert(walker@.frames =~= start(config@).frames);
            assert(walker@.failed =~= start(config@).failed);
        }
        walker
    }

    /// What the walker waits for.
    pub fn pending(&self) -> (action: WalkAction)
        ensures
            action@ == self@.waiting,
            within_walk(action@, self@.config),
    {
        proof {
            use_type_invariant(self);
        }
        self.waiting.clone()
    }

    /// The files whose stub failed so far, in the order of the walk.
    pub fn failed_files(&self) -> (failed: &Vec<FailedFile>)
        ensures
            failures_of(failed@) == self@.failed,
    {
        &self.failed
    }
}

/// Takes the walk one step further: from the state of the walk and what the
/// caller reports to the next state and what the walker then waits for.
///
/// Whatever is reported, the walker only ever waits for a directory or a
/// file that the walk may reach: below the sources root, with no hidden or
/// excluded name on the way, and, for a file, with an accepted extension.
pub fn traverse_directory(walker: TreeWalker, event: WalkEvent) -> (out: (TreeWalker, WalkAction))
    ensures
        out.0@ == step(walker@, event@),
        out.1@ == out.0@.waiting,
        within_walk(out.1@, walker@.config),
{
    proof {
        use_type_invariant(&walker);
    }
    let TreeWalker { config, frames, waiting, failed } = walker;
    match (waiting, event) {
        (WalkAction::List(dir), WalkEvent::Listed(entries)) => {
            let mut frames = frames;
            let ghost before = frames@;
            frames.push(Frame { dir, entries, next: 0 });
            proof {
                assert(entries_of(entries@).skip(0) =~= entries_of(entries@));
                assert(frames_of(frames@) =~= frames_of(before).push(
                    FrameModel { dir: dir@, rest: entries_of(entries@) },
                ));
                assert forall|i: int| 0 <= i < frames@.len() implies (#[trigger] frames@[i]).well_formed(
                    config@,
                ) by {
                    if i < frames@.len() - 1 {
                        assert(frames@[i] == before[i]);
                    }
                }
            }
            let (frames, waiting) = advance_frames(frames, &config);
            let action = waiting.clone();
            (TreeWalker { config, frames, waiting, failed }, action)
        },
        (WalkAction::List(dir), WalkEvent::ListFailed) => {
            let action = WalkAction::Aborted(dir.clone());
            (TreeWalker { config, frames, waiting: WalkAction::Aborted(dir), failed }, action)
        },
        (WalkAction::Generate(file), WalkEvent::Handled(failure)) => {
            let mut failed = failed;
            let ghost noted = failed@;
            match failure {
                Some(why) => {
                    failed.push(FailedFile { path: file, failure: why });
                    proof {
                        assert(failures_of(failed@) =~= failures_of(noted).push((file@, why)));
                    }
                },
                None => {},
            }
            let (frames, waiting) = advance_frames(frames, &config);
            let action = waiting.clone();
            (TreeWalker { config, frames, waiting, failed }, action)
        },
        (waiting, _) => {
            let action = waiting.clone();
            (TreeWalker { config, frames, waiting, failed }, action)
        },
    }
}

} // verus!
