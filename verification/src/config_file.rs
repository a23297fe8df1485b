//! The settings of a run, the directories they name, and the record that a
//! stub is rendered from.

use vstd::prelude::*;
use vstd::string::*;
use crate::json_data::{insert_text, new_members, object_of, object_texts};
use crate::text::texts;
use crate::tree_path::{path_of, PathModel, TreePath};

verus! {

/// The settings of a run.
#[derive(Debug)]
pub struct InitFile {
    /// Name of the project that the stubs are written for.
    pub tested_project: String,
    /// The directory that the three folders below are taken from.
    pub parent_path: String,
    /// The folder that the stubs go to.
    pub folder_tests_name: String,
    /// The folder for stubs that belong to no source file.
    pub folder_unresolved_tests: String,
    /// The folder that holds the source files.
    pub folder_with_files_project: String,
    /// Names of files and folders that are passed over.
    pub folder_file_exceptions: Vec<String>,
    /// The extensions of the files that get a stub, each with its dot.
    pub file_extension: Vec<String>,
}

/// What an `InitFile` stands for.
pub ghost struct ConfigModel {
    pub tested_project: Seq<char>,
    pub parent_path: Seq<char>,
    pub folder_tests_name: Seq<char>,
    pub folder_unresolved_tests: Seq<char>,
    pub folder_with_files_project: Seq<char>,
    pub folder_file_exceptions: Seq<Seq<char>>,
    pub file_extension: Seq<Seq<char>>,
}

impl View for InitFile {
    type V = ConfigModel;

    open spec fn view(&self) -> ConfigModel {
        ConfigModel {
            tested_project: self.tested_project@,
            parent_path: self.parent_path@,
            folder_tests_name: self.folder_tests_name@,
            folder_unresolved_tests: self.folder_unresolved_tests@,
            folder_with_files_project: self.folder_with_files_project@,
            folder_file_exceptions: texts(self.folder_file_exceptions@),
            file_extension: texts(self.file_extension@),
        }
    }
}

/// The settings that a first run writes down: a description in each field, and
/// `.swift` as the one extension.
pub open spec fn placeholder_config() -> ConfigModel {
    ConfigModel {
        tested_project: "Project to which tests are connected"@,
        parent_path: "Path to which paths for test folders are added"@,
        folder_tests_name: "Folder where tests are saved"@,
        folder_unresolved_tests: "Folder with tests without association with working files"@,
        folder_with_files_project: "Path to project files"@,
        folder_file_exceptions: seq!["Names of folders/files to be skipped"@],
        file_extension: seq![".swift"@],
    }
}

/// A copy of a list of strings.
pub fn clone_texts(list: &Vec<String>) -> (copy: Vec<String>)
    ensures
        texts(copy@) == texts(list@),
{
    let mut copy: Vec<String> = Vec::new();
    let mut i: usize = 0;
    while i < list.len()
        invariant
            i <= list.len(),
            copy.len() == i,
            forall|j: int| 0 <= j < i ==> copy@[j]@ == list@[j]@,
        decreases list.len() - i,
    {
        copy.push(list[i].clone());
        i = i + 1;
    }
    proof {
        assert(texts(copy@) =~= texts(list@));
    }
    copy
}

/// True where two lists hold the same strings in the same order.
pub fn same_texts(a: &Vec<String>, b: &Vec<String>) -> (same: bool)
    ensures
        same == (texts(a@) == texts(b@)),
{
    if a.len() != b.len() {
        proof {
            assert(texts(a@).len() != texts(b@).len());
        }
        return false;
    }
    let mut i: usize = 0;
    while i < a.len()
        invariant
            i <= a.len(),
            a.len() == b.len(),
            forall|j: int| 0 <= j < i ==> a@[j]@ == b@[j]@,
        decreases a.len() - i,
    {
        if a[i] != b[i] {
            proof {
                assert(texts(a@)[i as int] != texts(b@)[i as int]);
            }
            return false;
        }
        i = i + 1;
    }
    proof {
        assert(texts(a@) =~= texts(b@));
    }
    true
}

impl Default for InitFile {
    fn default() -> (config: Self)
        ensures
            config@ == placeholder_config(),
    {
        let mut exceptions: Vec<String> = Vec::new();
        exceptions.push(String::from_str("Names of folders/files to be skipped"));
        let mut extensions: Vec<String> = Vec::new();
        extensions.push(String::from_str(".swift"));
        let config = InitFile {
            tested_project: String::from_str("Project to which tests are connected"),
            parent_path: String::from_str("Path to which paths for test folders are added"),
            folder_tests_name: String::from_str("Folder where tests are saved"),
            folder_unresolved_tests: String::from_str(
                "Folder with tests without association with working files",
            ),
            folder_with_files_project: String::from_str("Path to project files"),
            folder_file_exceptions: exceptions,
            file_extension: extensions,
        };
        proof {
            assert(config@.folder_file_exceptions =~= placeholder_config().folder_file_exceptions);
            assert(config@.file_extension =~= placeholder_config().file_extension);
        }
        config
    }
}

impl InitFile {
    /// True for settings that are still the placeholders of a first run. A
    /// run on them would look for directories that do not exist.
    pub fn holds_placeholders(&self) -> (unset: bool)
        ensures
            unset == (self@ == placeholder_config()),
    {
        *self == InitFile::default()
    }
}

impl Clone for InitFile {
    fn clone(&self) -> (copy: Self)
        ensures
            copy@ == self@,
    {
        InitFile {
            tested_project: self.tested_project.clone(),
            parent_path: self.parent_path.clone(),
            folder_tests_name: self.folder_tests_name.clone(),
            folder_unresolved_tests: self.folder_unresolved_tests.clone(),
            folder_with_files_project: self.folder_with_files_project.clone(),
            folder_file_exceptions: clone_texts(&self.folder_file_exceptions),
            file_extension: clone_texts(&self.file_extension),
        }
    }
}

impl PartialEq for InitFile {
    fn eq(&self, other: &Self) -> (same: bool) {
        self.tested_project == other.tested_project && self.parent_path == other.parent_path
            && self.folder_tests_name == other.folder_tests_name && self.folder_unresolved_tests
            == other.folder_unresolved_tests && self.folder_with_files_project
            == other.folder_with_files_project && same_texts(
            &self.folder_file_exceptions,
            &other.folder_file_exceptions,
        ) && same_texts(&self.file_extension, &other.file_extension)
    }
}

impl vstd::std_specs::cmp::PartialEqSpecImpl for InitFile {
    open spec fn obeys_eq_spec() -> bool {
        true
    }

    open spec fn eq_spec(&self, other: &Self) -> bool {
        self@ == other@
    }
}

/// What one stub is rendered from.
#[derive(Debug)]
pub struct UnitSwift {
    /// Name of the project that the stub is written for.
    pub project_name: String,
    /// Name of the class under test: the source file's name without its
    /// extension.
    pub class_name: String,
    /// The day on which the stub is made.
    pub created_date: String,
}

/// What a `UnitSwift` stands for.
pub ghost struct RecordModel {
    pub project_name: Seq<char>,
    pub class_name: Seq<char>,
    pub created_date: Seq<char>,
}

impl View for UnitSwift {
    type V = RecordModel;

    open spec fn view(&self) -> RecordModel {
        RecordModel {
            project_name: self.project_name@,
            class_name: self.class_name@,
            created_date: self.created_date@,
        }
    }
}

/// The fields that a template can name, each with its text.
pub open spec fn record_fields(record: RecordModel) -> Map<Seq<char>, Seq<char>> {
    Map::empty().insert("class_name"@, record.class_name).insert(
        "created_date"@,
        record.created_date,
    ).insert("project_name"@, record.project_name)
}

impl UnitSwift {
    /// The record as a JSON object: one string member for each field, under
    /// the names `class_name`, `created_date` and `project_name`.
    pub fn get_json(&self) -> (data: serde_json::Value)
        ensures
            object_texts(data) == Some(record_fields(self@)),
    {
        let mut members = new_members();
        insert_text(&mut members, "class_name", self.class_name.as_str());
        insert_text(&mut members, "created_date", self.created_date.as_str());
        insert_text(&mut members, "project_name", self.project_name.as_str());
        object_of(members)
    }
}

/// The four directories of a run.
#[derive(Debug)]
pub struct FolderPaths {
    /// The directory that the other three are taken from.
    pub parent: TreePath,
    /// The root of the source files.
    pub sources: TreePath,
    /// The root of the stubs.
    pub tests: TreePath,
    /// The root for stubs that belong to no source file.
    pub unresolved: TreePath,
}

/// What a `FolderPaths` stands for.
pub ghost struct FoldersModel {
    pub parent: PathModel,
    pub sources: PathModel,
    pub tests: PathModel,
    pub unresolved: PathModel,
}

impl View for FolderPaths {
    type V = FoldersModel;

    open spec fn view(&self) -> FoldersModel {
        FoldersModel {
            parent: self.parent@,
            sources: self.sources@,
            tests: self.tests@,
            unresolved: self.unresolved@,
        }
    }
}

impl FoldersModel {
    /// True where the sources tree and the tests tree are apart: neither root
    /// is the other or lies below it.
    pub open spec fn apart(self) -> bool {
        !self.tests.is_under(self.sources) && !self.sources.is_under(self.tests)
    }
}

impl FolderPaths {
    /// True where the sources tree and the tests tree are apart. Where they
    /// are not, a stub can come to lie among the sources, and the next run
    /// takes it for a source file.
    pub fn trees_apart(&self) -> (apart: bool)
        ensures
            apart == self@.apart(),
    {
        !self.tests.is_under(&self.sources) && !self.sources.is_under(&self.tests)
    }
}

/// The directories that settings name: the parent path as written, and each
/// folder seen from it.
pub open spec fn folders_of(config: ConfigModel) -> FoldersModel {
    let parent = path_of(config.parent_path);
    FoldersModel {
        parent,
        sources: parent.join(path_of(config.folder_with_files_project)),
        tests: parent.join(path_of(config.folder_tests_name)),
        unresolved: parent.join(path_of(config.folder_unresolved_tests)),
    }
}

impl From<&InitFile> for FolderPaths {
    /// The four directories that the settings name.
    fn from(value: &InitFile) -> (paths: Self)
        ensures
            paths@ == folders_of(value@),
    {
        let parent = TreePath::parse(value.parent_path.as_str());
        let sources = parent.join(&TreePath::parse(value.folder_with_files_project.as_str()));
        let tests = parent.join(&TreePath::parse(value.folder_tests_name.as_str()));
        let unresolved = parent.join(&TreePath::parse(value.folder_unresolved_tests.as_str()));
        FolderPaths { parent, sources, tests, unresolved }
    }
}

/// What `from` gives is stated on `from` itself, over the views: no contract
/// can write the directories down as a value of their type.
impl vstd::std_specs::convert::FromSpecImpl<&InitFile> for FolderPaths {
    open spec fn obeys_from_spec() -> bool {
        false
    }

    open spec fn from_spec(value: &InitFile) -> Self {
        arbitrary()
    }
}

impl From<InitFile> for FolderPaths {
    /// The four directories that the settings name.
    fn from(value: InitFile) -> (paths: Self)
        ensures
            paths@ == folders_of(value@),
    {
        FolderPaths::from(&value)
    }
}

/// As for the conversion from a reference.
impl vstd::std_specs::convert::FromSpecImpl<InitFile> for FolderPaths {
    open spec fn obeys_from_spec() -> bool {
        false
    }

    open spec fn from_spec(value: InitFile) -> Self {
        arbitrary()
    }
}

} // verus!
