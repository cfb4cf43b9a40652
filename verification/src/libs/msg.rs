//! What the library has to say to the user: the texts, how loud each is, and
//! the failures that end or interrupt a command.

use vstd::prelude::*;
use vstd::string::*;

verus! {

// The texts that the commands show.
pub const RELLR_FILE_IS_MISSING: &'static str =
    "The rellr configuration file is missing in the selected directory";

pub const RELLR_FILE_IS_ALREADY_CREATED: &'static str =
    "The rellr configuration file has already been created";

pub const RELLR_FILE_WAS_CREATED: &'static str = "The rellr configuration file was created successfully";

pub const RELLR_INIT_HELP: &'static str =
    "To create a configuration file, run the command: `rellr init -n <your-project-name> -v <your-project-version>`";

pub const NEXT: &'static str = "Next version:";

pub const RELEASE_ALREADY_EXISTS: &'static str = "The release already exists";

pub const RELEASE_VERSION_NOT_SET: &'static str = "The release version has not yet been set";

pub const FEAT_WAS_CREATED: &'static str = "New feature was created successfully";

pub const FIX_WAS_CREATED: &'static str = "New hotfix was created successfully";

pub const RELEASE_FAILED: &'static str = "The release failed";

pub const FILES_ARE_MISSING: &'static str = "The following files are missing:";

pub const RELEASE_COMPLETED_SUCCESSFULLY: &'static str = "The release was completed successfully:";

pub const LAST_COMMIT_WAS_REMOVED: &'static str = "The last release commit was removed";

pub const TAG_ALREADY_EXISTS: &'static str = "The tag of this release already exists";

pub const INVALID_PATTERN: &'static str = "A pattern is not a valid regular expression";

pub const BRANCH_NOT_FOUND: &'static str = "A branch that is needed does not exist";

pub const BRANCH_ALREADY_EXISTS: &'static str =
    "The branch of the release cannot be renamed: a branch of the new name already exists";

pub const FAST_FORWARD: &'static str = "Fast-Forward";

pub const NORMAL_MERGE: &'static str = "Normal merge";

pub const UP_TO_DATE: &'static str = "The repository is up to date and no merge is required";

pub const MERGE_CONFLICTS: &'static str =
    "Merge conflicts were detected! Resolve conflicts and commit manually";

/// How loud a message is.
#[derive(Clone, Copy, Debug, PartialEq, Eq, Structural)]
pub enum Level {
    Info,
    Warn,
    Error,
}

/// A message for the user. The library only composes it; showing it is the
/// caller's part.
#[derive(Debug, PartialEq, Eq)]
pub struct Msg {
    pub text: String,
    pub level: Level,
}

/// A message as the contracts see it.
pub struct MsgView {
    pub text: Seq<char>,
    pub level: Level,
}

impl View for Msg {
    type V = MsgView;

    open spec fn view(&self) -> MsgView {
        MsgView { text: self.text@, level: self.level }
    }
}

impl Msg {
    /// A message with the given text, informational until marked otherwise.
    pub fn new(text: &str) -> (m: Msg)
        ensures
            m@ == (MsgView { text: text@, level: Level::Info }),
    {
        Msg { text: String::from_str(text), level: Level::Info }
    }

    /// The same text as information.
    pub fn info(self) -> (m: Msg)
        ensures
            m@ == (MsgView { text: self@.text, level: Level::Info }),
    {
        Msg { text: self.text, level: Level::Info }
    }

    /// The same text as a warning.
    pub fn warn(self) -> (m: Msg)
        ensures
            m@ == (MsgView { text: self@.text, level: Level::Warn }),
    {
        Msg { text: self.text, level: Level::Warn }
    }

    /// The same text as an error.
    pub fn error(self) -> (m: Msg)
        ensures
            m@ == (MsgView { text: self@.text, level: Level::Error }),
    {
        Msg { text: self.text, level: Level::Error }
    }
}

/// Why a command did not run to its end.
#[derive(Clone, Copy, Debug, PartialEq, Eq, Structural)]
pub enum Failure {
    /// No configuration file is there to read.
    ConfigMissing,
    /// A configuration file is already there.
    ConfigAlreadyCreated,
    /// No version is staged for release.
    ReleaseVersionNotSet,
    /// The version asked for is the one already staged.
    ReleaseAlreadyExists,
    /// The tag of the version to release is already there.
    TagAlreadyExists,
    /// The staged branch cannot be merged without a person's help.
    MergeConflict,
    /// Files that the release has to change are not there.
    FilesMissing,
    /// A pattern is not a valid regular expression.
    InvalidPattern,
    /// The staged branch cannot take its new name: the name is taken.
    BranchAlreadyExists,
    /// A branch to work from, or to check out, is not there.
    BranchNotFound,
}

impl Failure {
    /// Whether the failure ends the command. The two that do not are
    /// conflicts with what is already there: the command goes on with the
    /// state as it was.
    pub open spec fn spec_is_fatal(self) -> bool {
        !(self == Failure::ReleaseAlreadyExists || self == Failure::TagAlreadyExists)
    }

    /// Whether the failure ends the command.
    pub fn is_fatal(&self) -> (b: bool)
        ensures
            b == self.spec_is_fatal(),
    {
        match self {
            Failure::ReleaseAlreadyExists => false,
            Failure::TagAlreadyExists => false,
            _ => true,
        }
    }

    /// The text that tells the user of the failure.
    pub open spec fn spec_text(self) -> Seq<char> {
        match self {
            Failure::ConfigMissing => RELLR_FILE_IS_MISSING@,
            Failure::ConfigAlreadyCreated => RELLR_FILE_IS_ALREADY_CREATED@,
            Failure::ReleaseVersionNotSet => RELEASE_VERSION_NOT_SET@,
            Failure::ReleaseAlreadyExists => RELEASE_ALREADY_EXISTS@,
            Failure::TagAlreadyExists => TAG_ALREADY_EXISTS@,
            Failure::MergeConflict => MERGE_CONFLICTS@,
            Failure::FilesMissing => FILES_ARE_MISSING@,
            Failure::InvalidPattern => INVALID_PATTERN@,
            Failure::BranchAlreadyExists => BRANCH_ALREADY_EXISTS@,
            Failure::BranchNotFound => BRANCH_NOT_FOUND@,
        }
    }

    /// How loud the failure is told. A conflict with what is already there
    /// is a warning, also where it ends the command; everything else is an
    /// error.
    pub open spec fn spec_level(self) -> Level {
        if self == Failure::ReleaseAlreadyExists || self == Failure::TagAlreadyExists || self
            == Failure::ConfigAlreadyCreated {
            Level::Warn
        } else {
            Level::Error
        }
    }

    /// How loud the failure is told.
    pub fn level(&self) -> (l: Level)
        ensures
            l == self.spec_level(),
    {
        match self {
            Failure::ReleaseAlreadyExists => Level::Warn,
            Failure::TagAlreadyExists => Level::Warn,
            Failure::ConfigAlreadyCreated => Level::Warn,
            _ => Level::Error,
        }
    }

    /// The text that tells the user of the failure.
    pub fn text(&self) -> (s: &'static str)
        ensures
            s@ == self.spec_text(),
    {
        match self {
            Failure::ConfigMissing => RELLR_FILE_IS_MISSING,
            Failure::ConfigAlreadyCreated => RELLR_FILE_IS_ALREADY_CREATED,
            Failure::ReleaseVersionNotSet => RELEASE_VERSION_NOT_SET,
            Failure::ReleaseAlreadyExists => RELEASE_ALREADY_EXISTS,
            Failure::TagAlreadyExists => TAG_ALREADY_EXISTS,
            Failure::MergeConflict => MERGE_CONFLICTS,
            Failure::FilesMissing => FILES_ARE_MISSING,
            Failure::InvalidPattern => INVALID_PATTERN,
            Failure::BranchAlreadyExists => BRANCH_ALREADY_EXISTS,
            Failure::BranchNotFound => BRANCH_NOT_FOUND,
        }
    }

    /// The message that tells the user of the failure.
    pub fn message(&self) -> (m: Msg)
        ensures
            m@ == (MsgView { text: self.spec_text(), level: self.spec_level() }),
    {
        match self.level() {
            Level::Warn => Msg::new(self.text()).warn(),
            _ => Msg::new(self.text()).error(),
        }
    }
}

} // verus!
