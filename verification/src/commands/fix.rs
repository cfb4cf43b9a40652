use vstd::prelude::*;
use vstd::string::*;
use crate::libs::git::{
    action_views, branch_name, checkout_branch, checkout_of, BranchType, Git, RepoAction,
    RepoActionView,
};
use crate::libs::msg::{Failure, Level, Msg, MsgView, FIX_WAS_CREATED};
use crate::libs::project_config::{ProjectConfig, ProjectConfigView};
use crate::libs::text::views;

verus! {

/// What the caller gives to start a hotfix: its name.
#[derive(Debug, PartialEq, Eq)]
pub struct FixArgs {
    pub name: String,
}

/// What starting a hotfix comes to: the steps on the repository, and what
/// to tell the user.
#[derive(Debug, PartialEq, Eq)]
pub struct FixOutcome {
    pub actions: Vec<RepoAction>,
    pub message: Msg,
}

/// The steps that start a hotfix of this name: its branch is created from
/// the main branch unless it is there, and checked out. Fails where the
/// branch has to be created and the main branch is not there.
pub open spec fn fix_steps(
    config: ProjectConfigView,
    name: Seq<char>,
    branches: Set<Seq<char>>,
) -> Result<Seq<RepoActionView>, Failure> {
    let topic = ProjectConfigView { branch_type: BranchType::Hotfix, ..config };
    match topic.add_branch(name, branches) {
        Ok(steps) => Ok(steps.push(checkout_of(branch_name(BranchType::Hotfix, name)))),
        Err(failure) => Err(failure),
    }
}

/// Starts a hotfix: plans its branch and the checkout of it. `branches`
/// holds the names of the repository's local branches. Where the branch
/// cannot be made, the command fails and nothing is to be done.
pub fn cmd(project_config: ProjectConfig, fix_args: FixArgs, branches: &Vec<String>) -> (r: Result<
    FixOutcome,
    Failure,
>)
    ensures
        match fix_steps(project_config@, fix_args.name@, views(branches@).to_set()) {
            Ok(steps) => r is Ok && action_views(r->Ok_0.actions@) == steps && r->Ok_0.message@
                == (MsgView { text: FIX_WAS_CREATED@, level: Level::Info }),
            Err(failure) => r is Err && r->Err_0 == failure,
        },
{
    let mut project_config = project_config;
    project_config.branch_type = BranchType::Hotfix;
    let git = Git::new(&project_config);
    let mut actions = match git.add_branch(fix_args.name.as_str(), branches) {
        Ok(actions) => actions,
        Err(failure) => {
            return Err(failure);
        },
    };
    let ghost planned = action_views(actions@);
    actions.push(checkout_branch(git.get_branch_name(fix_args.name.as_str())));
    assert(action_views(actions@) =~= planned.push(
        checkout_of(branch_name(BranchType::Hotfix, fix_args.name@)),
    ));
    Ok(FixOutcome { actions, message: Msg::new(FIX_WAS_CREATED).info() })
}

} // verus!
