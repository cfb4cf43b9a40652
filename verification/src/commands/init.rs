use vstd::prelude::*;
use vstd::string::*;
use crate::libs::msg::{Failure, Level, Msg, MsgView, RELLR_FILE_WAS_CREATED};
use crate::libs::project_config::{ProjectConfig, ProjectConfigView};
use crate::libs::git::BranchType;
use crate::libs::text::opt_view;

verus! {

/// What the caller gives to set a project up: its name and, optionally, the
/// version it starts from.
#[derive(Debug, PartialEq, Eq)]
pub struct InitArgs {
    pub name: String,
    pub version: Option<String>,
}

/// What setting a project up comes to: the configuration to save, and what
/// to tell the user.
#[derive(Debug, PartialEq, Eq)]
pub struct InitOutcome {
    pub project_config: ProjectConfig,
    pub message: Msg,
}

/// The configuration of a project that is set up with these arguments.
pub open spec fn initial_config(name: Seq<char>, version: Option<Seq<char>>) -> ProjectConfigView {
    ProjectConfigView {
        name,
        current: match version {
            Some(v) => v,
            None => "0.0.0"@,
        },
        next: None,
        prev: None,
        branch_type: BranchType::Release,
        main_branch: "main"@,
        changelog: None,
        package_managers: None,
    }
}

/// Sets a project up. `exists` says whether a configuration file is already
/// there; then the command fails and nothing is to be saved.
pub fn cmd(init_args: InitArgs, exists: bool) -> (r: Result<InitOutcome, Failure>)
    ensures
        exists ==> r is Err && r->Err_0 == Failure::ConfigAlreadyCreated,
        !exists ==> r is Ok && r->Ok_0.project_config@ == initial_config(
            init_args.name@,
            opt_view(init_args.version),
        ) && r->Ok_0.message@ == (MsgView { text: RELLR_FILE_WAS_CREATED@, level: Level::Info }),
{
    match ProjectConfig::new_if_not_exist(init_args, exists) {
        Ok(project_config) => Ok(
            InitOutcome { project_config, message: Msg::new(RELLR_FILE_WAS_CREATED).info() },
        ),
        Err(failure) => Err(failure),
    }
}

} // verus!
