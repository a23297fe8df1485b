//! The stub of one source file.
//!
//! A stub is made once. Where one is already in place nothing is rendered and
//! nothing is to be written. Where none is, the template is rendered with the
//! project's name, the name of the class under test and today's date, and the
//! caller is handed the text together with the place it goes to.

use vstd::prelude::*;
use vstd::string::*;
use crate::clock::local_date;
use crate::config_file::{record_fields, ConfigModel, InitFile, RecordModel, UnitSwift};
use crate::failure::Failure;
use crate::partials::{has_partial, includes_partial};
use crate::path_mapper::{get_unit_test_path, mappable, stub_dir, stub_name};
use crate::template_engine::{
    new_registry,
    register_template_string,
    render,
    rendered,
    template_parses,
};
use crate::text::{file_stem, stem_of};
use crate::tree_path::{PathModel, TreePath};

verus! {

/// The template that stubs are rendered from: the path of the template file,
/// and its text.
#[derive(Debug)]
pub struct StubTemplate {
    /// The path of the template file. Its extension becomes the stubs'.
    pub path: TreePath,
    /// The text of the template; none where the file could not be read.
    pub text: Option<String>,
}

/// What a `StubTemplate` stands for.
pub ghost struct TemplateModel {
    pub path: PathModel,
    pub text: Option<Seq<char>>,
}

impl View for StubTemplate {
    type V = TemplateModel;

    open spec fn view(&self) -> TemplateModel {
        TemplateModel {
            path: self.path@,
            text: match self.text {
                Some(text) => Some(text@),
                None => None,
            },
        }
    }
}

/// A stub that is to be written: its directory, its name and its text.
#[derive(Debug)]
pub struct StubFile {
    /// The directory of the stub. It may not exist yet.
    pub dir: TreePath,
    /// The stub's file name.
    pub file_name: String,
    /// The rendered template.
    pub text: String,
}

/// What a `StubFile` stands for.
pub ghost struct StubModel {
    pub dir: PathModel,
    pub file_name: Seq<char>,
    pub text: Seq<char>,
}

impl View for StubFile {
    type V = StubModel;

    open spec fn view(&self) -> StubModel {
        StubModel { dir: self.dir@, file_name: self.file_name@, text: self.text@ }
    }
}

impl StubFile {
    /// The path of the stub: its name in its directory.
    pub fn path(&self) -> (path: TreePath)
        ensures
            path@ == self@.dir.child(self@.file_name),
    {
        self.dir.child(self.file_name.as_str())
    }
}

/// What is to be done for one source file.
#[derive(Debug)]
pub enum StubAction {
    /// The stub is in place: nothing is to be done.
    Keep,
    /// The stub is missing: its directory is to be made and it is to be
    /// written.
    Write(StubFile),
}

/// What a `StubAction` stands for.
pub ghost enum ActionModel {
    Keep,
    Write(StubModel),
}

impl View for StubAction {
    type V = ActionModel;

    open spec fn view(&self) -> ActionModel {
        match self {
            StubAction::Keep => ActionModel::Keep,
            StubAction::Write(stub) => ActionModel::Write(stub@),
        }
    }
}

/// The record of a stub made on `date` for the class `class_name`.
pub open spec fn record_of(config: ConfigModel, class_name: Seq<char>, date: Seq<char>)
    -> RecordModel {
    RecordModel { project_name: config.tested_project, class_name, created_date: date }
}

/// What the engine makes of a template and a record: the template is
/// registered alone, under the project's name, and rendered with the record's
/// fields. None where the template includes a partial, does not parse or does
/// not render.
pub open spec fn stub_text(template: Seq<char>, record: RecordModel) -> Option<Seq<char>> {
    if includes_partial(template) {
        None
    } else if template_parses(record.project_name, template) {
        rendered(
            Map::empty().insert(record.project_name, template),
            record.project_name,
            record_fields(record),
        )
    } else {
        None
    }
}

/// The text of the stub that is made on `date` for the source file at
/// `path`. None where there is no template text, or the engine refuses it.
pub open spec fn dated_text(
    path: PathModel,
    config: ConfigModel,
    template: TemplateModel,
    date: Seq<char>,
) -> Option<Seq<char>> {
    match template.text {
        Some(text) => stub_text(text, record_of(config, stem_of(path.file_name()->0), date)),
        None => None,
    }
}

/// What is due for a mappable source file without a stub, on a given day: the
/// stub with its place and its text, or a template failure.
pub open spec fn dated_outcome(
    path: PathModel,
    config: ConfigModel,
    template: TemplateModel,
    date: Seq<char>,
) -> Result<ActionModel, Failure> {
    match dated_text(path, config, template, date) {
        Some(text) => Ok(
            ActionModel::Write(
                StubModel {
                    dir: stub_dir(path, config),
                    file_name: stub_name(path, template.path),
                    text,
                },
            ),
        ),
        None => Err(Failure::TemplateRender),
    }
}

/// What may come of one source file: a mapping failure where it has no stub,
/// nothing to do where its stub is in place, and else the outcome of some day.
pub open spec fn stub_decision(
    path: PathModel,
    config: ConfigModel,
    template: TemplateModel,
    stub_exists: bool,
    outcome: Result<ActionModel, Failure>,
) -> bool {
    if !mappable(path, config) {
        outcome == Err::<ActionModel, Failure>(Failure::PathMapping)
    } else if stub_exists {
        outcome == Ok::<ActionModel, Failure>(ActionModel::Keep)
    } else {
        exists|date: Seq<char>| outcome == #[trigger] dated_outcome(path, config, template, date)
    }
}

/// An outcome as the contracts see it.
pub open spec fn outcome_model(outcome: Result<StubAction, Failure>) -> Result<
    ActionModel,
    Failure,
> {
    match outcome {
        Ok(action) => Ok(action@),
        Err(failure) => Err(failure),
    }
}

/// Renders `template` with the fields of `unit_swift`.
///
/// The template is registered under the project's name in a registry of its
/// own and rendered from there. Fails with `TemplateRender` where the
/// template includes a partial, and where the engine refuses the template or
/// the rendering.
pub fn render_unit_test_template(template: &str, unit_swift: UnitSwift) -> (out: Result<
    String,
    Failure,
>)
    ensures
        match out {
            Ok(text) => stub_text(template@, unit_swift@) == Some(text@),
            Err(failure) => failure == Failure::TemplateRender && stub_text(template@, unit_swift@)
                is None,
        },
{
    if has_partial(template) {
        return Err(Failure::TemplateRender);
    }
    let mut registry = new_registry();
    let name = unit_swift.project_name.as_str();
    match register_template_string(&mut registry, name, template) {
        Ok(_) => {},
        Err(_) => {
            return Err(Failure::TemplateRender);
        },
    }
    let data = unit_swift.get_json();
    match render(&registry, name, &data) {
        Ok(text) => Ok(text),
        Err(_) => Err(Failure::TemplateRender),
    }
}

/// The stub `unit_test_name` in `unit_test_dir`, for the class `class_name`,
/// as it is made on `date`.
pub fn create_unit_test_dated(
    unit_test_dir: TreePath,
    unit_test_name: String,
    class_name: &str,
    config: &InitFile,
    template: &str,
    date: &str,
) -> (out: Result<StubFile, Failure>)
    ensures
        match out {
            Ok(stub) => stub.dir@ == unit_test_dir@ && stub.file_name@ == unit_test_name@
                && stub_text(template@, record_of(config@, class_name@, date@)) == Some(
                stub.text@,
            ),
            Err(failure) => failure == Failure::TemplateRender && stub_text(
                template@,
                record_of(config@, class_name@, date@),
            ) is None,
        },
{
    let unit_swift = UnitSwift {
        project_name: config.tested_project.clone(),
        class_name: class_name.to_owned(),
        created_date: date.to_owned(),
    };
    match render_unit_test_template(template, unit_swift) {
        Ok(text) => Ok(StubFile { dir: unit_test_dir, file_name: unit_test_name, text }),
        Err(failure) => Err(failure),
    }
}

/// The stub `unit_test_name` in `unit_test_dir`, for the class `class_name`,
/// as it is made today.
///
/// The date is read from the clock, so the contract speaks of some date.
pub fn create_unit_test(
    unit_test_dir: TreePath,
    unit_test_name: String,
    class_name: &str,
    config: &InitFile,
    template: &str,
) -> (out: Result<StubFile, Failure>)
    ensures
        match out {
            Ok(stub) => stub.dir@ == unit_test_dir@ && stub.file_name@ == unit_test_name@
                && exists|date: Seq<char>|
                stub_text(template@, #[trigger] record_of(config@, class_name@, date)) == Some(
                    stub.text@,
                ),
            Err(failure) => failure == Failure::TemplateRender && exists|date: Seq<char>|
                stub_text(template@, #[trigger] record_of(config@, class_name@, date)) is None,
        },
{
    let date = local_date("%d/%m/%Y");
    create_unit_test_dated(
        unit_test_dir,
        unit_test_name,
        class_name,
        config,
        template,
        date.as_str(),
    )
}

/// Decides what is to be done for the source file at `path`.
///
/// `stub_exists` says whether a file is in place where `get_unit_test_path`
/// puts the stub of `path`. Where it is, nothing is rendered. Where `path`
/// has no stub, the failure is `PathMapping`, whatever `stub_exists` says.
/// Where a stub is due and the template has no text, or the engine refuses
/// it, the failure is `TemplateRender`.
pub fn create_unit_test_if_need(
    path: &TreePath,
    config: &InitFile,
    template: &StubTemplate,
    stub_exists: bool,
) -> (out: Result<StubAction, Failure>)
    ensures
        stub_decision(path@, config@, template@, stub_exists, outcome_model(out)),
{
    let (dir, name) = match get_unit_test_path(path, config, &template.path) {
        Ok(target) => target,
        Err(failure) => {
            return Err(failure);
        },
    };
    if stub_exists {
        return Ok(StubAction::Keep);
    }
    let text = match &template.text {
        Some(text) => text,
        None => {
            proof {
                assert(outcome_model(Err(Failure::TemplateRender)) == dated_outcome(
                    path@,
                    config@,
                    template@,
                    Seq::empty(),
                ));
            }
            return Err(Failure::TemplateRender);
        },
    };
    let file_name = path.file_name().unwrap();
    let class_name = file_stem(file_name.as_str());
    match create_unit_test(dir, name, class_name.as_str(), config, text.as_str()) {
        Ok(stub) => {
            proof {
                let date = choose|date: Seq<char>|
                    stub_text(text@, #[trigger] record_of(config@, class_name@, date)) == Some(
                        stub.text@,
                    );
                assert(outcome_model(Ok(StubAction::Write(stub))) == dated_outcome(
                    path@,
                    config@,
                    template@,
                    date,
                ));
            }
            Ok(StubAction::Write(stub))
        },
        Err(failure) => {
            proof {
                let date = choose|date: Seq<char>|
                    stub_text(text@, #[trigger] record_of(config@, class_name@, date)) is None;
                assert(outcome_model(Err(failure)) == dated_outcome(
                    path@,
                    config@,
                    template@,
                    date,
                ));
            }
            Err(failure)
        },
    }
}

} // verus!
