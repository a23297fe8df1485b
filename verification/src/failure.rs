//! The ways in which a run can fail.

use vstd::prelude::*;
use vstd::string::*;

verus! {

/// Why a run, or the stub of one file, failed.
#[derive(Clone, Copy, Debug, PartialEq, Eq, Structural)]
pub enum Failure {
    /// The settings could not be read.
    ConfigurationRead,
    /// A directory could not be listed.
    DirectoryList,
    /// The source file does not lie under the sources root.
    PathMapping,
    /// The template did not parse or did not render.
    TemplateRender,
    /// The stub's directory or the stub could not be written.
    StubWrite,
}

impl Failure {
    /// A failure that ends the run. The others concern one file: the run goes
    /// on with the next.
    pub open spec fn fatal(self) -> bool {
        self == Failure::ConfigurationRead || self == Failure::DirectoryList
    }

    /// True for a failure that ends the run.
    pub fn is_fatal(self) -> (fatal: bool)
        ensures
            fatal == self.fatal(),
    {
        match self {
            Failure::ConfigurationRead => true,
            Failure::DirectoryList => true,
            Failure::PathMapping => false,
            Failure::TemplateRender => false,
            Failure::StubWrite => false,
        }
    }

    /// The failure in words.
    pub open spec fn words(self) -> Seq<char> {
        match self {
            Failure::ConfigurationRead => "the settings could not be read"@,
            Failure::DirectoryList => "a directory could not be listed"@,
            Failure::PathMapping => "the file is not under the sources root"@,
            Failure::TemplateRender => "the template could not be rendered"@,
            Failure::StubWrite => "the stub could not be written"@,
        }
    }

    /// The failure in words, for a report.
    pub fn describe(self) -> (text: String)
        ensures
            text@ == self.words(),
    {
        match self {
            Failure::ConfigurationRead => String::from_str("the settings could not be read"),
            Failure::DirectoryList => String::from_str("a directory could not be listed"),
            Failure::PathMapping => String::from_str("the file is not under the sources root"),
            Failure::TemplateRender => String::from_str("the template could not be rendered"),
            Failure::StubWrite => String::from_str("the stub could not be written"),
        }
    }
}

} // verus!
