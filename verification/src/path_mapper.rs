//! From a source file to the place of its stub.
//!
//! The stub's directory lies under the tests root as the source file's
//! directory lies under the sources root. The stub's name is the source
//! file's name without its extension, then `Tests`, then the extension of the
//! template.

use vstd::prelude::*;
use vstd::string::*;
use crate::config_file::{folders_of, ConfigModel, FolderPaths, InitFile};
use crate::failure::Failure;
use crate::text::{extension, extension_of, file_stem, stem_of};
use crate::tree_path::{PathModel, TreePath};

verus! {

/// What follows the stem in a stub's name: `Tests`, and the template's
/// extension with its dot where the template has one.
pub open spec fn stub_suffix(template: PathModel) -> Seq<char> {
    match template.file_name() {
        Some(name) => match extension_of(name) {
            Some(ext) => "Tests"@ + seq!['.'] + ext,
            None => "Tests"@,
        },
        None => "Tests"@,
    }
}

/// True where `path` has a stub: it ends in a file name, and its directory is
/// the sources root or lies below it.
pub open spec fn mappable(path: PathModel, config: ConfigModel) -> bool {
    path.file_name() is Some && path.parent()->0.is_under(folders_of(config).sources)
}

/// The directory of the stub of a mappable `path`: the tests root, and below
/// it the names that lead from the sources root to the directory of `path`.
pub open spec fn stub_dir(path: PathModel, config: ConfigModel) -> PathModel {
    let folders = folders_of(config);
    PathModel {
        absolute: folders.tests.absolute,
        parts: folders.tests.parts + path.parent()->0.below(folders.sources),
    }
}

/// The name of the stub of a mappable `path`.
pub open spec fn stub_name(path: PathModel, template: PathModel) -> Seq<char> {
    stem_of(path.file_name()->0) + stub_suffix(template)
}

/// What follows the stem in the name of a stub made from `template`.
pub fn stub_suffix_of(template: &TreePath) -> (suffix: String)
    ensures
        suffix@ == stub_suffix(template@),
{
    let tests = String::from_str("Tests");
    match template.file_name() {
        Some(name) => match extension(name.as_str()) {
            Some(ext) => {
                let dotted = tests.concat(".");
                proof {
                    reveal_strlit(".");
                    assert("."@ =~= seq!['.']);
                }
                dotted.concat(ext.as_str())
            },
            None => tests,
        },
        None => tests,
    }
}

/// The directory and the name of the stub of the source file at `path`.
///
/// Fails with `PathMapping` where `path` has no file name or its directory is
/// neither the sources root nor below it.
pub fn get_unit_test_path(path: &TreePath, config: &InitFile, template: &TreePath) -> (target:
    Result<(TreePath, String), Failure>)
    ensures
        match target {
            Ok((dir, name)) => mappable(path@, config@) && dir@ == stub_dir(path@, config@)
                && name@ == stub_name(path@, template@),
            Err(failure) => !mappable(path@, config@) && failure == Failure::PathMapping,
        },
{
    let folders = FolderPaths::from(config);
    let file_name = match path.file_name() {
        Some(name) => name,
        None => {
            return Err(Failure::PathMapping);
        },
    };
    let parent = match path.parent() {
        Some(parent) => parent,
        None => {
            return Err(Failure::PathMapping);
        },
    };
    let below = match parent.strip_prefix(&folders.sources) {
        Some(below) => below,
        None => {
            return Err(Failure::PathMapping);
        },
    };
    let dir = folders.tests.join(&below);
    let stem = file_stem(file_name.as_str());
    let suffix = stub_suffix_of(template);
    let name = stem.concat(suffix.as_str());
    Ok((dir, name))
}

/// The stub mirrors the source: for a file in the directory that the names
/// `below` lead to from the sources root, the stub lies in the directory that
/// the same names lead to from the tests root, and only the file's name is
/// changed: its extension gives way to `Tests` and the template's extension.
pub proof fn lemma_stub_mirrors_source(
    config: ConfigModel,
    below: Seq<Seq<char>>,
    file_name: Seq<char>,
    template: PathModel,
)
    requires
        file_name != seq!['.', '.'],
    ensures
        ({
            let folders = folders_of(config);
            let path = PathModel {
                absolute: folders.sources.absolute,
                parts: (folders.sources.parts + below).push(file_name),
            };
            &&& mappable(path, config)
            &&& stub_dir(path, config) == PathModel {
                absolute: folders.tests.absolute,
                parts: folders.tests.parts + below,
            }
            &&& stub_name(path, template) == stem_of(file_name) + stub_suffix(template)
        }),
{
    let folders = folders_of(config);
    let path = PathModel {
        absolute: folders.sources.absolute,
        parts: (folders.sources.parts + below).push(file_name),
    };
    assert(path.parts.drop_last() =~= folders.sources.parts + below);
    assert((folders.sources.parts + below).skip(folders.sources.parts.len() as int) =~= below);
}

/// The stub of any file that has one lies under the tests root, as deep as
/// the file lies under the sources root and by the same names.
pub proof fn lemma_stub_dir_under_tests(path: PathModel, config: ConfigModel)
    requires
        mappable(path, config),
    ensures
        stub_dir(path, config).is_under(folders_of(config).tests),
        stub_dir(path, config).below(folders_of(config).tests) == path.parent()->0.below(
            folders_of(config).sources,
        ),
{
    let folders = folders_of(config);
    let names = path.parent()->0.below(folders.sources);
    assert((folders.tests.parts + names).skip(folders.tests.parts.len() as int) =~= names);
}

/// A file whose directory is neither the sources root nor below it has no
/// stub.
pub proof fn lemma_outside_sources_unmappable(path: PathModel, config: ConfigModel)
    requires
        path.parent() is None || !path.parent()->0.is_under(folders_of(config).sources),
    ensures
        !mappable(path, config),
{
}

/// With the sources tree and the tests tree apart, no stub lies among the
/// sources: whatever its name, a file in the directory of a stub is not under
/// the sources root.
pub proof fn lemma_stub_apart_from_sources(path: PathModel, config: ConfigModel, name: Seq<char>)
    requires
        mappable(path, config),
        folders_of(config).apart(),
    ensures
        !stub_dir(path, config).child(name).is_under(folders_of(config).sources),
{
    let folders = folders_of(config);
    let sources = folders.sources.parts;
    let tests = folders.tests.parts;
    let stub = stub_dir(path, config).child(name);
    if stub.is_under(folders.sources) {
        if sources.len() <= tests.len() {
            assert forall|k: int| 0 <= k < sources.len() implies sources[k] == tests[k] by {
                assert(sources[k] == stub.parts[k]);
            }
            assert(sources =~= tests.subrange(0, sources.len() as int));
            assert(folders.tests.is_under(folders.sources));
        } else {
            assert forall|k: int| 0 <= k < tests.len() implies tests[k] == sources[k] by {
                assert(sources[k] == stub.parts[k]);
            }
            assert(tests =~= sources.subrange(0, tests.len() as int));
            assert(folders.sources.is_under(folders.tests));
        }
    }
}

} // verus!
