use vstd::prelude::*;
use vstd::string::*;
use crate::libs::git::{
    action_views, checkout_branch, checkout_of, Git, RepoAction, RepoActionView,
};
use crate::libs::msg::{Failure, Level, Msg, NEXT};
use crate::libs::project_config::{ProjectConfig, ProjectConfigView};
use crate::libs::text::views;

verus! {

/// Which component of a dotted version a bump raises.
#[derive(Clone, Copy, Debug, PartialEq, Eq, Structural)]
pub enum UpdateType {
    Patch,
    Minor,
    Major,
}

impl Default for UpdateType {
    fn default() -> (kind: UpdateType)
        ensures
            kind == UpdateType::Patch,
    {
        UpdateType::Patch
    }
}

impl UpdateType {
    /// Position of the component that this kind of bump raises: major first.
    pub open spec fn spec_index(self) -> nat {
        match self {
            UpdateType::Major => 0,
            UpdateType::Minor => 1,
            UpdateType::Patch => 2,
        }
    }

    /// The position of the component that this kind of bump raises.
    pub fn index(self) -> (i: usize)
        ensures
            i == self.spec_index(),
    {
        match self {
            UpdateType::Major => 0,
            UpdateType::Minor => 1,
            UpdateType::Patch => 2,
        }
    }
}

/// What the caller gives to stage the next version: the kind of bump.
#[derive(Debug, PartialEq, Eq)]
pub struct NextArgs {
    pub update_type: UpdateType,
}

/// What staging the next version comes to: the configuration to save, the
/// warning where the version was staged already, the steps on the
/// repository, and what to tell the user.
#[derive(Debug, PartialEq, Eq)]
pub struct NextOutcome {
    pub project_config: ProjectConfig,
    pub warning: Option<Failure>,
    pub actions: Vec<RepoAction>,
    pub message: Msg,
}

impl ProjectConfigView {
    /// The version state after the command that stages the next version. A
    /// bump that fails leaves the state as it was, and the command goes on.
    pub open spec fn staged(self, kind: UpdateType) -> ProjectConfigView {
        match self.up_version(kind) {
            Ok(after) => after,
            Err(_) => self,
        }
    }

    /// The steps that give the staged version its branch and check it out,
    /// for a repository with these branches, or the failure where the
    /// branch cannot be made sure of.
    pub open spec fn stage_steps(self, branches: Set<Seq<char>>) -> Result<
        Seq<RepoActionView>,
        Failure,
    > {
        match self.ensure_branch(branches) {
            Ok(steps) => Ok(steps.push(checkout_of(self.next_branch().unwrap()))),
            Err(failure) => Err(failure),
        }
    }
}

/// The text that tells which version is staged.
pub open spec fn next_report(version: Seq<char>) -> Seq<char> {
    NEXT@ + seq![' '] + version
}

/// Stages the next version: bumps the version state, plans the branch of
/// the staged version and its checkout, and reports the version. `branches`
/// holds the names of the repository's local branches. A bump to the
/// version that is staged already gives a warning and leaves the state as it
/// was; the branch is still made sure of. Where the branch cannot be made
/// sure of, the command fails and nothing is to be saved or done.
pub fn cmd(project_config: ProjectConfig, next_args: NextArgs, branches: &Vec<String>) -> (r:
    Result<NextOutcome, Failure>)
    ensures
        match project_config@.staged(next_args.update_type).stage_steps(views(branches@).to_set()) {
            Ok(steps) => {
                &&& r is Ok
                &&& r->Ok_0.project_config@ == project_config@.staged(next_args.update_type)
                &&& r->Ok_0.warning == match project_config@.up_version(next_args.update_type) {
                    Ok(_) => None,
                    Err(failure) => Some(failure),
                }
                &&& r->Ok_0.project_config@.next.is_some()
                &&& action_views(r->Ok_0.actions@) == steps
                &&& r->Ok_0.message@.text == next_report(r->Ok_0.project_config@.next.unwrap())
                &&& r->Ok_0.message@.level == Level::Info
            },
            Err(failure) => r is Err && r->Err_0 == failure,
        },
{
    let mut project_config = project_config;
    let warning = match project_config.up_version(&next_args.update_type) {
        Ok(_) => None,
        Err(failure) => Some(failure),
    };
    let git = Git::new(&project_config);
    let mut actions = match git.add_or_rename_next_branch(branches) {
        Ok(actions) => actions,
        Err(failure) => {
            return Err(failure);
        },
    };
    let ghost planned = action_views(actions@);
    let mut text = String::from_str(NEXT);
    proof {
        reveal_strlit(" ");
    }
    text.append(" ");
    match &project_config.next {
        Some(next) => {
            actions.push(checkout_branch(git.get_branch_name(next.as_str())));
            text.append(next.as_str());
        },
        None => {},
    }
    assert(action_views(actions@) =~= planned.push(
        checkout_of(project_config@.next_branch().unwrap()),
    ));
    assert(text@ =~= next_report(project_config@.next.unwrap()));
    Ok(NextOutcome { project_config, warning, actions, message: Msg::new(text.as_str()).info() })
}

} // verus!
