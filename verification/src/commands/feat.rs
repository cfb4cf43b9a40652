use vstd::prelude::*;
use vstd::string::*;
use crate::libs::git::{
    action_views, branch_name, checkout_branch, checkout_of, BranchType, Git, RepoAction,
    RepoActionView,
};
use crate::libs::msg::{Failure, Level, Msg, MsgView, FEAT_WAS_CREATED};
use crate::libs::project_config::{ProjectConfig, ProjectConfigView};
use crate::libs::text::views;

verus! {

/// What the caller gives to start a feature: its name.
#[derive(Debug, PartialEq, Eq)]
pub struct FeatArgs {
    pub name: String,
}

/// What starting a feature comes to: the steps on the repository, and what
/// to tell the user.
#[derive(Debug, PartialEq, Eq)]
pub struct FeatOutcome {
    pub actions: Vec<RepoAction>,
    pub message: Msg,
}

/// The steps that start a feature of this name: its branch is created from
/// the main branch unless it is there, and checked out. Fails where the
/// branch has to be created and the main branch is not there.
pub open spec fn feat_steps(
    config: ProjectConfigView,
    name: Seq<char>,
    branches: Set<Seq<char>>,
) -> Result<Seq<RepoActionView>, Failure> {
    let topic = ProjectConfigView { branch_type: BranchType::Feature, ..config };
    match topic.add_branch(name, branches) {
        Ok(steps) => Ok(steps.push(checkout_of(branch_name(BranchType::Feature, name)))),
        Err(failure) => Err(failure),
    }
}

/// Starts a feature: plans its branch and the checkout of it. `branches`
/// holds the names of the repository's local branches. Where the branch
/// cannot be made, the command fails and nothing is to be done.
pub fn cmd(project_config: ProjectConfig, feat_args: FeatArgs, branches: &Vec<String>) -> (r: Result<
    FeatOutcome,
    Failure,
>)
    ensures
        match feat_steps(project_config@, feat_args.name@, views(branches@).to_set()) {
            Ok(steps) => r is Ok && action_views(r->Ok_0.actions@) == steps && r->Ok_0.message@
                == (MsgView { text: FEAT_WAS_CREATED@, level: Level::Info }),
            Err(failure) => r is Err && r->Err_0 == failure,
        },
{
    let mut project_config = project_config;
    project_config.branch_type = BranchType::Feature;
    let git = Git::new(&project_config);
    let mut actions = match git.add_branch(feat_args.name.as_str(), branches) {
        Ok(actions) => actions,
        Err(failure) => {
            return Err(failure);
        },
    };
    let ghost planned = action_views(actions@);
    actions.push(checkout_branch(git.get_branch_name(feat_args.name.as_str())));
    assert(action_views(actions@) =~= planned.push(
        checkout_of(branch_name(BranchType::Feature, feat_args.name@)),
    ));
    Ok(FeatOutcome { actions, message: Msg::new(FEAT_WAS_CREATED).info() })
}

} // verus!
