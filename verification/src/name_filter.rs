//! Which entries of a directory take part in a run.
//!
//! A hidden entry never does. A directory does unless its name is excluded. A
//! file does if its name is not excluded and its extension is accepted.
//! Anything else does not.

use vstd::prelude::*;
use vstd::string::*;
use crate::config_file::{ConfigModel, InitFile};
use crate::text::{contains_name, extension_of, find_split_point, lemma_last_dot};
use crate::tree_path::TreePath;

verus! {

/// What kind of thing a directory entry is.
#[derive(Clone, Copy, Debug, PartialEq, Eq, Structural)]
pub enum EntryKind {
    /// A directory.
    Directory,
    /// A regular file.
    File,
    /// Neither: a link, a device, a socket.
    Other,
}

/// A hidden name starts with a dot.
pub open spec fn hidden_name(name: Seq<char>) -> bool {
    name.len() > 0 && name[0] == '.'
}

/// What a file's extension is compared by: the dot and the extension, or the
/// word `Empty` for a name without one.
pub open spec fn extension_token(name: Seq<char>) -> Seq<char> {
    match extension_of(name) {
        Some(ext) => seq!['.'] + ext,
        None => "Empty"@,
    }
}

/// The rule for a name that is not hidden.
pub open spec fn valid_name(name: Seq<char>, kind: EntryKind, config: ConfigModel) -> bool {
    match kind {
        EntryKind::Directory => !config.folder_file_exceptions.contains(name),
        EntryKind::File => !config.folder_file_exceptions.contains(name)
            && config.file_extension.contains(extension_token(name)),
        EntryKind::Other => false,
    }
}

/// The whole rule: not hidden, and valid for its kind.
pub open spec fn eligible(name: Seq<char>, kind: EntryKind, config: ConfigModel) -> bool {
    !hidden_name(name) && valid_name(name, kind, config)
}

/// True for a name that starts with a dot.
pub fn name_is_hidden(name: &str) -> (hidden: bool)
    ensures
        hidden == hidden_name(name@),
{
    name.unicode_len() > 0 && name.get_char(0) == '.'
}

/// The token that a file's extension is compared by.
pub fn extension_token_of(name: &str) -> (token: String)
    ensures
        token@ == extension_token(name@),
{
    match find_split_point(name) {
        Some(i) => {
            let n: usize = name.unicode_len();
            proof {
                lemma_last_dot(name@);
                assert(name@.subrange(i as int, n as int) =~= seq!['.'] + name@.skip(i + 1));
            }
            name.substring_char(i, n).to_owned()
        },
        None => String::from_str("Empty"),
    }
}

/// The rule for a name that is not hidden, on a name and its kind.
pub fn name_is_valid(name: &String, kind: EntryKind, config: &InitFile) -> (valid: bool)
    ensures
        valid == valid_name(name@, kind, config@),
{
    match kind {
        EntryKind::Directory => !contains_name(&config.folder_file_exceptions, name),
        EntryKind::File => {
            if contains_name(&config.folder_file_exceptions, name) {
                false
            } else {
                let token = extension_token_of(name.as_str());
                contains_name(&config.file_extension, &token)
            }
        },
        EntryKind::Other => false,
    }
}

/// True where the last name of `path` starts with a dot. A path without a
/// last name is not hidden.
pub fn is_hidden(path: &TreePath) -> (hidden: bool)
    ensures
        hidden == match path@.file_name() {
            Some(name) => hidden_name(name),
            None => false,
        },
{
    match path.file_name() {
        Some(name) => name_is_hidden(name.as_str()),
        None => false,
    }
}

/// True where the last name of `path` meets the rule for its kind: for a
/// directory that it is not excluded, for a file that it is not excluded and
/// its extension is accepted. False for any other kind and for a path without
/// a last name.
pub fn is_valid_name(path: &TreePath, kind: EntryKind, config: &InitFile) -> (valid: bool)
    ensures
        valid == match path@.file_name() {
            Some(name) => valid_name(name, kind, config@),
            None => false,
        },
{
    match path.file_name() {
        Some(name) => name_is_valid(&name, kind, config),
        None => false,
    }
}

/// True where the entry at `path` takes part in a run: it is not hidden and
/// its name is valid for its kind.
pub fn is_eligible(path: &TreePath, kind: EntryKind, config: &InitFile) -> (takes_part: bool)
    ensures
        takes_part == match path@.file_name() {
            Some(name) => eligible(name, kind, config@),
            None => false,
        },
{
    !is_hidden(path) && is_valid_name(path, kind, config)
}


/// What the filter never lets through, whatever else the settings say: a
/// hidden name, an excluded name, a file whose extension is not accepted, and
/// an entry that is neither a directory nor a file.
pub proof fn lemma_filter_rejects(name: Seq<char>, kind: EntryKind, config: ConfigModel)
    ensures
        hidden_name(name) ==> !eligible(name, kind, config),
        config.folder_file_exceptions.contains(name) ==> !eligible(name, kind, config),
        kind == EntryKind::File && !config.file_extension.contains(extension_token(name))
            ==> !eligible(name, kind, config),
        kind == EntryKind::Other ==> !eligible(name, kind, config),
{
}

} // verus!
