//! Branches, merges, commits and tags: what to do with the repository for a
//! given version state. Nothing here touches a repository; each function
//! takes what was seen in it and says what is to be done.

use vstd::prelude::*;
use vstd::string::*;
use crate::libs::msg::{Failure, Level, Msg, FAST_FORWARD, NORMAL_MERGE, UP_TO_DATE};
use crate::libs::project_config::{ProjectConfig, ProjectConfigView};
use crate::libs::text::{opt_view, slice_views, views};

verus! {

/// The kind of branch that a command works on. It gives the branch's name
/// its first part.
#[derive(Clone, Copy, Debug, PartialEq, Eq, Structural)]
pub enum BranchType {
    Release,
    Feature,
    Hotfix,
}

impl Default for BranchType {
    fn default() -> (b: BranchType)
        ensures
            b == BranchType::Release,
    {
        BranchType::Release
    }
}

impl BranchType {
    /// The kind's name in lower case, as it stands in a branch's name.
    pub open spec fn spec_prefix(self) -> Seq<char> {
        match self {
            BranchType::Release => "release"@,
            BranchType::Feature => "feature"@,
            BranchType::Hotfix => "hotfix"@,
        }
    }

    /// The kind's name in lower case.
    pub fn prefix(&self) -> (s: &'static str)
        ensures
            s@ == self.spec_prefix(),
    {
        match self {
            BranchType::Release => "release",
            BranchType::Feature => "feature",
            BranchType::Hotfix => "hotfix",
        }
    }
}

/// Which of the two branches of a release a reference is asked for.
#[derive(Clone, Copy, Debug, PartialEq, Eq, Structural)]
pub enum VersionType {
    Main,
    Next,
}

/// The name of the branch of the given kind for a version or a topic.
pub open spec fn branch_name(kind: BranchType, name: Seq<char>) -> Seq<char> {
    kind.spec_prefix() + seq!['/'] + name
}

/// The full name of the reference of a local branch.
pub open spec fn branch_ref(branch: Seq<char>) -> Seq<char> {
    "refs/heads/"@ + branch
}

/// The name of the tag of a version.
pub open spec fn tag_name(version: Seq<char>) -> Seq<char> {
    seq!['v'] + version
}

/// One step on the repository. The library plans steps; the caller carries
/// them out in order and stops at the first that fails. A step that cannot
/// be carried out fails, and its failure is the caller's to hand on.
#[derive(Debug, PartialEq, Eq)]
pub enum RepoAction {
    /// Create the branch `name` at the tip of the branch `base`. Fails
    /// where a branch of that name is there.
    Create { name: String, base: String },
    /// Give the branch `from` the name `to`. Fails where a branch of that
    /// name is there.
    Rename { from: String, to: String },
    /// Delete the branch `name`.
    Delete { name: String },
    /// Point the head at the branch `branch`, whose reference is
    /// `reference`, and check its tree out, dropping what is uncommitted in
    /// tracked files.
    Checkout { branch: String, reference: String },
    /// Move the branch `branch` to the tip of the branch `to` and check the
    /// tree out.
    FastForward { branch: String, to: String },
    /// Bring the changes of the branch `from` into the index and the
    /// working tree of the branch `branch`, which is checked out, by the
    /// version control system's own means. Nothing is committed yet; the
    /// caller looks whether the changes conflict.
    Merge { branch: String, from: String },
    /// Commit on the branch `branch` what the merge of the branch `from`
    /// has left in the index, with the tips of both as parents.
    CommitMerge { branch: String, from: String, message: String },
    /// Drop what a merge has left in the index and in the working tree,
    /// and go back to the tip of the branch `branch`.
    AbortMerge { branch: String },
}

/// A step as the contracts see it.
pub enum RepoActionView {
    Create { name: Seq<char>, base: Seq<char> },
    Rename { from: Seq<char>, to: Seq<char> },
    Delete { name: Seq<char> },
    Checkout { branch: Seq<char>, reference: Seq<char> },
    FastForward { branch: Seq<char>, to: Seq<char> },
    Merge { branch: Seq<char>, from: Seq<char> },
    CommitMerge { branch: Seq<char>, from: Seq<char>, message: Seq<char> },
    AbortMerge { branch: Seq<char> },
}

impl View for RepoAction {
    type V = RepoActionView;

    open spec fn view(&self) -> RepoActionView {
        match self {
            RepoAction::Create { name, base } => RepoActionView::Create { name: name@, base: base@ },
            RepoAction::Rename { from, to } => RepoActionView::Rename { from: from@, to: to@ },
            RepoAction::Delete { name } => RepoActionView::Delete { name: name@ },
            RepoAction::Checkout { branch, reference } => RepoActionView::Checkout {
                branch: branch@,
                reference: reference@,
            },
            RepoAction::FastForward { branch, to } => RepoActionView::FastForward {
                branch: branch@,
                to: to@,
            },
            RepoAction::Merge { branch, from } => RepoActionView::Merge {
                branch: branch@,
                from: from@,
            },
            RepoAction::CommitMerge { branch, from, message } => RepoActionView::CommitMerge {
                branch: branch@,
                from: from@,
                message: message@,
            },
            RepoAction::AbortMerge { branch } => RepoActionView::AbortMerge { branch: branch@ },
        }
    }
}

/// The views of a list of steps.
pub open spec fn action_views(v: Seq<RepoAction>) -> Seq<RepoActionView> {
    Seq::new(v.len(), |i: int| v[i]@)
}

/// How the staged branch stands to the main branch.
#[derive(Clone, Copy, Debug, PartialEq, Eq, Structural)]
pub enum MergeKind {
    /// The main branch's tip is an ancestor of the staged branch's tip.
    FastForward,
    /// The two have diverged and can be merged.
    Normal,
    /// The main branch holds all of the staged branch already.
    UpToDate,
    /// None of these: the analysis offers no merge, and only a person can
    /// go on. Changes that conflict are not seen by the analysis; they show
    /// in the merge step of a normal merge.
    Conflicted,
}

/// Whether `git2::MergeAnalysis::is_fast_forward` holds of the analysis
/// with these bits. In git2 it tests the flag `ANALYSIS_FASTFORWARD`, the
/// bit of value 4.
#[verifier::external_body]
fn analysis_is_fast_forward(bits: u32) -> (b: bool)
    ensures
        b == (bits & 4 != 0),
{
    git2::MergeAnalysis::from_bits_truncate(bits).is_fast_forward()
}

/// Whether `git2::MergeAnalysis::is_normal` holds of the analysis with
/// these bits. In git2 it tests the flag `ANALYSIS_NORMAL`, the bit of
/// value 1.
#[verifier::external_body]
fn analysis_is_normal(bits: u32) -> (b: bool)
    ensures
        b == (bits & 1 != 0),
{
    git2::MergeAnalysis::from_bits_truncate(bits).is_normal()
}

/// Whether `git2::MergeAnalysis::is_up_to_date` holds of the analysis with
/// these bits. In git2 it tests the flag `ANALYSIS_UP_TO_DATE`, the bit of
/// value 2.
#[verifier::external_body]
fn analysis_is_up_to_date(bits: u32) -> (b: bool)
    ensures
        b == (bits & 2 != 0),
{
    git2::MergeAnalysis::from_bits_truncate(bits).is_up_to_date()
}

/// What the bits of a merge analysis say. A fast-forward is taken where it
/// is possible, then a normal merge; an analysis that says neither, nor that
/// all is up to date, offers no merge and is refused like a conflict.
pub open spec fn merge_kind(bits: u32) -> MergeKind {
    if bits & 4 != 0 {
        MergeKind::FastForward
    } else if bits & 1 != 0 {
        MergeKind::Normal
    } else if bits & 2 != 0 {
        MergeKind::UpToDate
    } else {
        MergeKind::Conflicted
    }
}

/// Reads a merge analysis, given by the bits of `git2::MergeAnalysis`.
pub fn classify_merge(bits: u32) -> (kind: MergeKind)
    ensures
        kind == merge_kind(bits),
{
    if analysis_is_fast_forward(bits) {
        MergeKind::FastForward
    } else if analysis_is_normal(bits) {
        MergeKind::Normal
    } else if analysis_is_up_to_date(bits) {
        MergeKind::UpToDate
    } else {
        MergeKind::Conflicted
    }
}

/// Who signs a commit or a tag.
#[derive(Debug, PartialEq, Eq)]
pub struct Signature {
    pub name: String,
    pub email: String,
}

/// Why a merge is given up after its merge step, and the steps that put
/// the repository back.
#[derive(Debug, PartialEq, Eq)]
pub struct MergeRefusal {
    pub failure: Failure,
    pub actions: Vec<RepoAction>,
}

/// A refusal of a merge as the contracts see it.
pub struct MergeRefusalView {
    pub failure: Failure,
    pub actions: Seq<RepoActionView>,
}

impl View for MergeRefusal {
    type V = MergeRefusalView;

    open spec fn view(&self) -> MergeRefusalView {
        MergeRefusalView { failure: self.failure, actions: action_views(self.actions@) }
    }
}

/// The message of the commit of a merge of the branch.
pub open spec fn merge_message(from: Seq<char>) -> Seq<char> {
    "Merge branch '"@ + from + "'"@
}

/// What a merge comes to: the steps to carry out, and what to tell the
/// user.
#[derive(Debug, PartialEq, Eq)]
pub struct MergePlan {
    pub kind: MergeKind,
    pub actions: Vec<RepoAction>,
    pub message: Msg,
}

/// What a release commit comes to: the paths to stage, who signs, the
/// commit's message, and the annotated tag on the new commit. The four
/// steps belong together: the caller carries out all of them or none.
#[derive(Debug, PartialEq, Eq)]
pub struct CommitPlan {
    pub paths: Vec<String>,
    pub signature: Signature,
    pub message: String,
    pub tag: String,
    pub tag_message: String,
}

/// A release commit as the contracts see it.
pub struct CommitPlanView {
    pub paths: Seq<Seq<char>>,
    pub author_name: Seq<char>,
    pub author_email: Seq<char>,
    pub message: Seq<char>,
    pub tag: Seq<char>,
    pub tag_message: Seq<char>,
}

impl View for CommitPlan {
    type V = CommitPlanView;

    open spec fn view(&self) -> CommitPlanView {
        CommitPlanView {
            paths: views(self.paths@),
            author_name: self.signature.name@,
            author_email: self.signature.email@,
            message: self.message@,
            tag: self.tag@,
            tag_message: self.tag_message@,
        }
    }
}

impl ProjectConfigView {
    /// The name of the main branch's reference.
    pub open spec fn main_ref(self) -> Seq<char> {
        branch_ref(self.main_branch)
    }

    /// The name of the branch of the staged version.
    pub open spec fn next_branch(self) -> Option<Seq<char>> {
        match self.next {
            Some(version) => Some(branch_name(self.branch_type, version)),
            None => None,
        }
    }

    /// The name of the branch of the version that was staged before.
    pub open spec fn prev_branch(self) -> Option<Seq<char>> {
        match self.prev {
            Some(version) => Some(branch_name(self.branch_type, version)),
            None => None,
        }
    }

    /// What is to be done so that the branch for `name` is there, in a
    /// repository with these branches: nothing where it is there, else it
    /// is created from the main branch. Fails where the main branch is
    /// needed and is not there.
    pub open spec fn add_branch(self, name: Seq<char>, branches: Set<Seq<char>>) -> Result<
        Seq<RepoActionView>,
        Failure,
    > {
        if branches.contains(branch_name(self.branch_type, name)) {
            Ok(Seq::<RepoActionView>::empty())
        } else if !branches.contains(self.main_branch) {
            Err(Failure::BranchNotFound)
        } else {
            Ok(
                seq![
                    RepoActionView::Create {
                        name: branch_name(self.branch_type, name),
                        base: self.main_branch,
                    },
                ],
            )
        }
    }

    /// What is to be done so that the staged version has its branch, in a
    /// repository with these branches. Where the branch of the version
    /// staged before is there, under another name, it is renamed; otherwise
    /// the branch is created from the main branch unless it is there. Fails
    /// where no version is staged, where the branch to rename cannot take
    /// its new name because a branch of that name is there, and where the
    /// main branch is needed and is not there.
    pub open spec fn ensure_branch(self, branches: Set<Seq<char>>) -> Result<
        Seq<RepoActionView>,
        Failure,
    > {
        match self.next {
            None => Err(Failure::ReleaseVersionNotSet),
            Some(next) => {
                if self.prev.is_some() && branches.contains(self.prev_branch().unwrap())
                    && self.prev != Some(next) {
                    if branches.contains(branch_name(self.branch_type, next)) {
                        Err(Failure::BranchAlreadyExists)
                    } else {
                        Ok(
                            seq![
                                RepoActionView::Rename {
                                    from: branch_name(self.branch_type, self.prev.unwrap()),
                                    to: branch_name(self.branch_type, next),
                                },
                            ],
                        )
                    }
                } else {
                    self.add_branch(next, branches)
                }
            },
        }
    }

    /// The branch to check out in a repository with these branches: the
    /// one for `name` where a name is given and the branch is there, else
    /// the main branch.
    pub open spec fn checkout_branch(self, name: Option<Seq<char>>, branches: Set<Seq<char>>) -> Seq<
        char,
    > {
        match name {
            Some(n) => if branches.contains(branch_name(self.branch_type, n)) {
                branch_name(self.branch_type, n)
            } else {
                self.main_branch
            },
            None => self.main_branch,
        }
    }

    /// The step that checks out the branch for `name`, or the main branch.
    /// Fails where the branch to check out is not there.
    pub open spec fn checkout(self, name: Option<Seq<char>>, branches: Set<Seq<char>>) -> Result<
        RepoActionView,
        Failure,
    > {
        if branches.contains(self.checkout_branch(name, branches)) {
            Ok(checkout_of(self.checkout_branch(name, branches)))
        } else {
            Err(Failure::BranchNotFound)
        }
    }

    /// The steps that start a merge of the staged branch into the main
    /// branch. The main branch is checked out first. A fast-forward moves
    /// it, where the staged branch is ahead of it by `ahead` commits and
    /// `ahead` is not zero, and the staged branch is deleted. A normal merge
    /// brings the changes of the staged branch in; what follows depends on
    /// whether they conflict, and `merge_outcome` says it. Nothing else is
    /// done where all is up to date. Fails, with no step planned, where no
    /// version is staged or the analysis offers no merge at all.
    pub open spec fn merge(self, analysis: u32, ahead: nat) -> Result<
        Seq<RepoActionView>,
        Failure,
    > {
        match self.next {
            None => Err(Failure::ReleaseVersionNotSet),
            Some(next) => {
                let staged = branch_name(self.branch_type, next);
                let first = seq![checkout_of(self.main_branch)];
                match merge_kind(analysis) {
                    MergeKind::FastForward => Ok(
                        first + self.fast_forward(staged, ahead) + seq![
                            RepoActionView::Delete { name: staged },
                        ],
                    ),
                    MergeKind::Normal => Ok(
                        first + seq![
                            RepoActionView::Merge { branch: self.main_branch, from: staged },
                        ],
                    ),
                    MergeKind::UpToDate => Ok(first),
                    MergeKind::Conflicted => Err(Failure::MergeConflict),
                }
            },
        }
    }

    /// What follows the merge step of a normal merge. Where the changes
    /// conflict, the merge is given up: the failure tells the user to
    /// resolve the conflicts by hand, and the step with it puts the index
    /// and the working tree back, so that nothing is half applied. Where
    /// they do not, the merge is committed and the staged branch deleted.
    pub open spec fn merge_outcome(self, conflicts: bool) -> Result<
        Seq<RepoActionView>,
        MergeRefusalView,
    > {
        match self.next {
            None => Err(
                MergeRefusalView {
                    failure: Failure::ReleaseVersionNotSet,
                    actions: Seq::<RepoActionView>::empty(),
                },
            ),
            Some(next) => {
                let staged = branch_name(self.branch_type, next);
                if conflicts {
                    Err(
                        MergeRefusalView {
                            failure: Failure::MergeConflict,
                            actions: seq![RepoActionView::AbortMerge { branch: self.main_branch }],
                        },
                    )
                } else {
                    Ok(
                        seq![
                            RepoActionView::CommitMerge {
                                branch: self.main_branch,
                                from: staged,
                                message: merge_message(staged),
                            },
                            RepoActionView::Delete { name: staged },
                        ],
                    )
                }
            },
        }
    }

    /// The step that moves the main branch to the tip of the staged branch,
    /// where the staged branch is ahead.
    pub open spec fn fast_forward(self, staged: Seq<char>, ahead: nat) -> Seq<RepoActionView> {
        if ahead > 0 {
            seq![RepoActionView::FastForward { branch: self.main_branch, to: staged }]
        } else {
            Seq::<RepoActionView>::empty()
        }
    }

    /// The release commit of the current version in a repository with
    /// these tags, or the failure where the version's tag is among them.
    pub open spec fn commit(
        self,
        paths: Seq<Seq<char>>,
        author_name: Option<Seq<char>>,
        author_email: Option<Seq<char>>,
        tags: Set<Seq<char>>,
    ) -> Result<CommitPlanView, Failure> {
        if tags.contains(tag_name(self.current)) {
            Err(Failure::TagAlreadyExists)
        } else {
            Ok(
                CommitPlanView {
                    paths,
                    author_name: match author_name {
                        Some(n) => n,
                        None => Seq::<char>::empty(),
                    },
                    author_email: match author_email {
                        Some(e) => e,
                        None => Seq::<char>::empty(),
                    },
                    message: self.current,
                    tag: tag_name(self.current),
                    tag_message: self.current,
                },
            )
        }
    }
}

/// The step that checks a branch out.
pub open spec fn checkout_of(branch: Seq<char>) -> RepoActionView {
    RepoActionView::Checkout { branch, reference: branch_ref(branch) }
}

/// The text of a merge's report.
pub open spec fn merge_report(kind: MergeKind) -> Seq<char> {
    match kind {
        MergeKind::FastForward => FAST_FORWARD@,
        MergeKind::Normal => NORMAL_MERGE@,
        MergeKind::UpToDate => UP_TO_DATE@,
        MergeKind::Conflicted => Failure::MergeConflict.spec_text(),
    }
}

/// Whether the name is among the names of a list: of the branches, or of
/// the tags, of a repository.
pub fn is_listed(names: &Vec<String>, name: &str) -> (b: bool)
    ensures
        b == views(names@).to_set().contains(name@),
{
    let wanted = String::from_str(name);
    let mut i: usize = 0;
    while i < names.len()
        invariant
            i <= names.len(),
            wanted@ == name@,
            forall|j: int| 0 <= j < i ==> views(names@)[j] != name@,
        decreases names.len() - i,
    {
        if names[i] == wanted {
            assert(views(names@)[i as int] == name@);
            return true;
        }
        i = i + 1;
    }
    false
}

/// The step that checks the branch out.
pub fn checkout_branch(branch: String) -> (r: RepoAction)
    ensures
        r@ == checkout_of(branch@),
{
    let reference = get_ref_name(branch.as_str());
    RepoAction::Checkout { branch, reference }
}

/// The full name of the reference of a local branch.
pub fn get_ref_name(branch: &str) -> (r: String)
    ensures
        r@ == branch_ref(branch@),
{
    let mut r = String::from_str("refs/heads/");
    r.append(branch);
    r
}

/// The identity that signs, with an empty text for what is not configured.
pub fn get_signature(name: Option<String>, email: Option<String>) -> (s: Signature)
    ensures
        s.name@ == match name {
            Some(n) => n@,
            None => Seq::<char>::empty(),
        },
        s.email@ == match email {
            Some(e) => e@,
            None => Seq::<char>::empty(),
        },
{
    Signature {
        name: match name {
            Some(n) => n,
            None => String::new(),
        },
        email: match email {
            Some(e) => e,
            None => String::new(),
        },
    }
}

/// The planner of what happens in the repository for a project.
#[derive(Debug, PartialEq, Eq)]
pub struct Git {
    pub project_config: ProjectConfig,
}

impl Git {
    /// A planner for the project.
    pub fn new(project_config: &ProjectConfig) -> (g: Self)
        ensures
            g.project_config@ == project_config@,
    {
        Git { project_config: project_config.clone() }
    }

    /// The name of the branch of this project's kind for a version or a
    /// topic.
    pub fn get_branch_name(&self, name: &str) -> (r: String)
        ensures
            r@ == branch_name(self.project_config@.branch_type, name@),
    {
        proof {
            reveal_strlit("/");
        }
        let mut r = String::from_str(self.project_config.branch_type.prefix());
        r.append("/");
        r.append(name);
        assert(r@ =~= branch_name(self.project_config@.branch_type, name@));
        r
    }

    /// The name of the branch of the staged version.
    pub fn next_branch_name(&self) -> (r: Option<String>)
        ensures
            opt_view(r) == self.project_config@.next_branch(),
    {
        match &self.project_config.next {
            Some(version) => Some(self.get_branch_name(version.as_str())),
            None => None,
        }
    }

    /// The name of the branch of the version that was staged before.
    pub fn prev_branch_name(&self) -> (r: Option<String>)
        ensures
            opt_view(r) == self.project_config@.prev_branch(),
    {
        match &self.project_config.prev {
            Some(version) => Some(self.get_branch_name(version.as_str())),
            None => None,
        }
    }

    /// The full name of the reference of the main branch or of the staged
    /// version's branch. Fails where the latter is asked for and no version
    /// is staged.
    pub fn get_branch_ref_name(&self, version_type: VersionType) -> (r: Result<String, Failure>)
        ensures
            match r {
                Ok(name) => name@ == match version_type {
                    VersionType::Main => self.project_config@.main_ref(),
                    VersionType::Next => branch_ref(self.project_config@.next_branch().unwrap()),
                } && (version_type == VersionType::Next ==> self.project_config@.next.is_some()),
                Err(failure) => failure == Failure::ReleaseVersionNotSet && version_type
                    == VersionType::Next && self.project_config@.next.is_none(),
            },
    {
        match version_type {
            VersionType::Main => Ok(get_ref_name(self.project_config.main_branch.as_str())),
            VersionType::Next => match self.next_branch_name() {
                Some(branch) => Ok(get_ref_name(branch.as_str())),
                None => Err(Failure::ReleaseVersionNotSet),
            },
        }
    }

    /// Plans what makes sure that the branch for `name` is there.
    /// `branches` holds the names of the repository's local branches. Where
    /// the branch has to be created and the main branch is not there,
    /// nothing is planned and the failure says so.
    pub fn add_branch(&self, name: &str, branches: &Vec<String>) -> (r: Result<
        Vec<RepoAction>,
        Failure,
    >)
        ensures
            match self.project_config@.add_branch(name@, views(branches@).to_set()) {
                Ok(actions) => r is Ok && action_views(r->Ok_0@) == actions,
                Err(failure) => r == Err::<Vec<RepoAction>, Failure>(failure),
            },
    {
        let mut actions: Vec<RepoAction> = Vec::new();
        let branch = self.get_branch_name(name);
        if !is_listed(branches, branch.as_str()) {
            if !is_listed(branches, self.project_config.main_branch.as_str()) {
                return Err(Failure::BranchNotFound);
            }
            actions.push(
                RepoAction::Create { name: branch, base: self.project_config.main_branch.clone() },
            );
        }
        assert(action_views(actions@) =~= self.project_config@.add_branch(
            name@,
            views(branches@).to_set(),
        )->Ok_0);
        Ok(actions)
    }

    /// Plans what makes sure that the staged version has its branch.
    /// `branches` holds the names of the repository's local branches. Where
    /// the branch of the version staged before would have to be renamed onto
    /// a name that is taken, nothing is planned and the failure says so.
    pub fn add_or_rename_next_branch(&self, branches: &Vec<String>) -> (r: Result<
        Vec<RepoAction>,
        Failure,
    >)
        ensures
            match self.project_config@.ensure_branch(views(branches@).to_set()) {
                Ok(actions) => r is Ok && action_views(r->Ok_0@) == actions,
                Err(failure) => r == Err::<Vec<RepoAction>, Failure>(failure),
            },
    {
        let next = match &self.project_config.next {
            Some(next) => next,
            None => {
                return Err(Failure::ReleaseVersionNotSet);
            },
        };
        match &self.project_config.prev {
            Some(prev) => {
                let branch = self.get_branch_name(prev.as_str());
                if is_listed(branches, branch.as_str()) && !(*prev == *next) {
                    let taken = self.get_branch_name(next.as_str());
                    if is_listed(branches, taken.as_str()) {
                        return Err(Failure::BranchAlreadyExists);
                    }
                    return Ok(self.rename_next_branch(prev, next));
                }
            },
            None => {},
        }
        self.add_branch(next.as_str(), branches)
    }

    /// The step that gives the branch of `prev` the name of the branch of
    /// `next`.
    fn rename_next_branch(&self, prev: &String, next: &String) -> (r: Vec<RepoAction>)
        ensures
            action_views(r@) == seq![
                RepoActionView::Rename {
                    from: branch_name(self.project_config@.branch_type, prev@),
                    to: branch_name(self.project_config@.branch_type, next@),
                },
            ],
    {
        let mut actions: Vec<RepoAction> = Vec::new();
        actions.push(
            RepoAction::Rename {
                from: self.get_branch_name(prev.as_str()),
                to: self.get_branch_name(next.as_str()),
            },
        );
        assert(action_views(actions@) =~= seq![
            RepoActionView::Rename {
                from: branch_name(self.project_config@.branch_type, prev@),
                to: branch_name(self.project_config@.branch_type, next@),
            },
        ]);
        actions
    }

    /// Plans the checkout of the branch for `name`, or of the main branch
    /// where no name is given or the branch is not there. `branches` holds
    /// the names of the repository's local branches. Where the branch to
    /// check out is not there, nothing is planned and the failure says so.
    pub fn checkout(&self, name: Option<&str>, branches: &Vec<String>) -> (r: Result<
        RepoAction,
        Failure,
    >)
        ensures
            match self.project_config@.checkout(
                match name {
                    Some(n) => Some(n@),
                    None => None,
                },
                views(branches@).to_set(),
            ) {
                Ok(action) => r is Ok && r->Ok_0@ == action,
                Err(failure) => r is Err && r->Err_0 == failure,
            },
    {
        let branch = match name {
            Some(n) => {
                let named = self.get_branch_name(n);
                if is_listed(branches, named.as_str()) {
                    named
                } else {
                    self.project_config.main_branch.clone()
                }
            },
            None => self.project_config.main_branch.clone(),
        };
        if is_listed(branches, branch.as_str()) {
            Ok(checkout_branch(branch))
        } else {
            Err(Failure::BranchNotFound)
        }
    }

    /// Plans the checkout of the staged version's branch. Fails where no
    /// version is staged, and where the branch to check out is not there.
    pub fn checkout_next(&self, branches: &Vec<String>) -> (r: Result<RepoAction, Failure>)
        ensures
            match self.project_config@.next {
                Some(next) => match self.project_config@.checkout(
                    Some(next),
                    views(branches@).to_set(),
                ) {
                    Ok(action) => r is Ok && r->Ok_0@ == action,
                    Err(failure) => r is Err && r->Err_0 == failure,
                },
                None => r is Err && r->Err_0 == Failure::ReleaseVersionNotSet,
            },
    {
        match &self.project_config.next {
            Some(next) => self.checkout(Some(next.as_str()), branches),
            None => Err(Failure::ReleaseVersionNotSet),
        }
    }

    /// Plans the step that moves the main branch to the tip of the branch
    /// `staged`. `ahead` is the number of commits by which that branch is
    /// ahead of the main branch; where it is zero there is nothing to move.
    pub fn fast_forward(&self, staged: &str, ahead: usize) -> (r: Vec<RepoAction>)
        ensures
            action_views(r@) == self.project_config@.fast_forward(staged@, ahead as nat),
    {
        let mut actions: Vec<RepoAction> = Vec::new();
        if ahead > 0 {
            actions.push(
                RepoAction::FastForward {
                    branch: self.project_config.main_branch.clone(),
                    to: String::from_str(staged),
                },
            );
        }
        assert(action_views(actions@) =~= self.project_config@.fast_forward(
            staged@,
            ahead as nat,
        ));
        actions
    }

    /// Plans the merge of the staged branch into the main branch.
    /// `analysis` holds the bits of the `git2::MergeAnalysis` of the staged
    /// branch against the main branch, `ahead` the number of commits by
    /// which the staged branch is ahead of it. The plan of a normal merge
    /// ends with the merge step; the caller then tells `merge_outcome`
    /// whether the changes conflict.
    pub fn merge(&self, analysis: u32, ahead: usize) -> (r: Result<MergePlan, Failure>)
        ensures
            match self.project_config@.merge(analysis, ahead as nat) {
                Ok(actions) => r is Ok && action_views(r->Ok_0.actions@) == actions && r->Ok_0.kind
                    == merge_kind(analysis) && r->Ok_0.message@.text == merge_report(
                    merge_kind(analysis),
                ) && r->Ok_0.message@.level == Level::Info,
                Err(failure) => r is Err && r->Err_0 == failure,
            },
    {
        let staged = match self.next_branch_name() {
            Some(staged) => staged,
            None => {
                return Err(Failure::ReleaseVersionNotSet);
            },
        };
        let kind = classify_merge(analysis);
        let mut actions: Vec<RepoAction> = Vec::new();
        actions.push(checkout_branch(self.project_config.main_branch.clone()));
        let report = match kind {
            MergeKind::FastForward => {
                let mut step = self.fast_forward(staged.as_str(), ahead);
                actions.append(&mut step);
                actions.push(RepoAction::Delete { name: staged });
                FAST_FORWARD
            },
            MergeKind::Normal => {
                actions.push(
                    RepoAction::Merge {
                        branch: self.project_config.main_branch.clone(),
                        from: staged,
                    },
                );
                NORMAL_MERGE
            },
            MergeKind::UpToDate => UP_TO_DATE,
            MergeKind::Conflicted => {
                return Err(Failure::MergeConflict);
            },
        };
        assert(action_views(actions@) =~= self.project_config@.merge(
            analysis,
            ahead as nat,
        )->Ok_0);
        Ok(MergePlan { kind, actions, message: Msg::new(report).info() })
    }

    /// Plans what follows the merge step of a normal merge. `conflicts`
    /// says whether the changes that the step brought in conflict. Where
    /// they do, the merge fails with the conflict as its failure, and with
    /// the step that puts the index and the working tree back; the main
    /// branch and the staged branch stay as they were. Where they do not,
    /// the merge is committed and the staged branch deleted.
    pub fn merge_outcome(&self, conflicts: bool) -> (r: Result<Vec<RepoAction>, MergeRefusal>)
        ensures
            match self.project_config@.merge_outcome(conflicts) {
                Ok(actions) => r is Ok && action_views(r->Ok_0@) == actions,
                Err(refusal) => r is Err && r->Err_0@ == refusal,
            },
    {
        let staged = match self.next_branch_name() {
            Some(staged) => staged,
            None => {
                let refusal = MergeRefusal {
                    failure: Failure::ReleaseVersionNotSet,
                    actions: Vec::new(),
                };
                assert(refusal@.actions =~= Seq::<RepoActionView>::empty());
                return Err(refusal);
            },
        };
        let mut actions: Vec<RepoAction> = Vec::new();
        if conflicts {
            actions.push(RepoAction::AbortMerge { branch: self.project_config.main_branch.clone() });
            let refusal = MergeRefusal { failure: Failure::MergeConflict, actions };
            assert(refusal@.actions =~= self.project_config@.merge_outcome(
                conflicts,
            )->Err_0.actions);
            return Err(refusal);
        }
        let mut message = String::from_str("Merge branch '");
        message.append(staged.as_str());
        message.append("'");
        actions.push(
            RepoAction::CommitMerge {
                branch: self.project_config.main_branch.clone(),
                from: staged.clone(),
                message,
            },
        );
        actions.push(RepoAction::Delete { name: staged });
        assert(action_views(actions@) =~= self.project_config@.merge_outcome(conflicts)->Ok_0);
        Ok(actions)
    }

    /// Plans the release commit of the current version: the paths to
    /// stage, the commit with the version as its message, and the annotated
    /// tag `v` plus the version on it. `author_name` and `author_email` are
    /// what the repository has configured; `tags` holds the names of the
    /// repository's tags. Where the version's tag is among them, nothing is
    /// planned.
    pub fn commit(
        &self,
        paths: Vec<&str>,
        author_name: Option<String>,
        author_email: Option<String>,
        tags: &Vec<String>,
    ) -> (r: Result<CommitPlan, Failure>)
        ensures
            match self.project_config@.commit(
                slice_views(paths@),
                opt_view(author_name),
                opt_view(author_email),
                views(tags@).to_set(),
            ) {
                Ok(plan) => r is Ok && r->Ok_0@ == plan,
                Err(failure) => r is Err && r->Err_0 == failure,
            },
    {
        proof {
            reveal_strlit("v");
        }
        let mut tag = String::from_str("v");
        tag.append(self.project_config.current.as_str());
        assert(tag@ =~= tag_name(self.project_config@.current));
        if is_listed(tags, tag.as_str()) {
            return Err(Failure::TagAlreadyExists);
        }
        let mut staged: Vec<String> = Vec::new();
        let mut i: usize = 0;
        while i < paths.len()
            invariant
                i <= paths.len(),
                staged@.len() == i,
                forall|j: int| 0 <= j < i ==> staged@[j]@ == paths@[j]@,
            decreases paths.len() - i,
        {
            staged.push(String::from_str(paths[i]));
            i = i + 1;
        }
        assert(views(staged@) =~= slice_views(paths@));
        Ok(
            CommitPlan {
                paths: staged,
                signature: get_signature(author_name, author_email),
                message: self.project_config.current.clone(),
                tag,
                tag_message: self.project_config.current.clone(),
            },
        )
    }
}

/// The branches of a repository, where its head points, and the merge
/// that is under way in its index and working tree, if one is: what the
/// steps that the library plans read and move. A branch is known by its name
/// and stands for the id of the commit at its tip.
pub struct RepoModel {
    pub branches: Map<Seq<char>, Seq<char>>,
    pub head: Seq<char>,
    pub merging: Option<Seq<char>>,
}

impl RepoModel {
    /// Whether a branch of this name is there.
    pub open spec fn has(self, branch: Seq<char>) -> bool {
        self.branches.dom().contains(branch)
    }

    /// The repository after one step, or `None` where the step cannot be
    /// carried out: creating or renaming onto a name that is taken, working
    /// from a branch that is not there, deleting the branch that the head
    /// points at, committing a merge whose changes conflict. `merged` is
    /// what the merge at hand comes to: the id of its commit, or `None`
    /// where the changes conflict.
    pub open spec fn after(self, action: RepoActionView, merged: Option<Seq<char>>) -> Option<
        RepoModel,
    > {
        match action {
            RepoActionView::Create { name, base } => if self.has(base) && !self.has(name) {
                Some(RepoModel { branches: self.branches.insert(name, self.branches[base]), ..self })
            } else {
                None
            },
            RepoActionView::Rename { from, to } => if self.has(from) && !self.has(to) {
                Some(
                    RepoModel {
                        branches: self.branches.remove(from).insert(to, self.branches[from]),
                        head: if self.head == from {
                            to
                        } else {
                            self.head
                        },
                        ..self
                    },
                )
            } else {
                None
            },
            RepoActionView::Delete { name } => if self.has(name) && self.head != name {
                Some(RepoModel { branches: self.branches.remove(name), ..self })
            } else {
                None
            },
            RepoActionView::Checkout { branch, reference } => if self.has(branch) {
                Some(RepoModel { head: branch, ..self })
            } else {
                None
            },
            RepoActionView::FastForward { branch, to } => if self.has(branch) && self.has(to) {
                Some(RepoModel { branches: self.branches.insert(branch, self.branches[to]), ..self })
            } else {
                None
            },
            RepoActionView::Merge { branch, from } => if self.has(branch) && self.has(from)
                && self.head == branch && self.merging.is_none() {
                Some(RepoModel { merging: Some(from), ..self })
            } else {
                None
            },
            RepoActionView::CommitMerge { branch, from, message } => if self.has(branch)
                && self.head == branch && self.merging == Some(from) && merged.is_some() {
                Some(
                    RepoModel {
                        branches: self.branches.insert(branch, merged.unwrap()),
                        merging: None,
                        ..self
                    },
                )
            } else {
                None
            },
            RepoActionView::AbortMerge { branch } => if self.head == branch
                && self.merging.is_some() {
                Some(RepoModel { merging: None, ..self })
            } else {
                None
            },
        }
    }

    /// The repository after the steps, carried out in order, or `None`
    /// where one of them cannot be carried out.
    pub open spec fn after_all(
        self,
        actions: Seq<RepoActionView>,
        merged: Option<Seq<char>>,
    ) -> Option<RepoModel>
        decreases actions.len(),
    {
        if actions.len() == 0 {
            Some(self)
        } else {
            match self.after_all(actions.drop_last(), merged) {
                Some(repo) => repo.after(actions.last(), merged),
                None => None,
            }
        }
    }
}

/// The steps of a plan; none where the planning failed.
pub open spec fn steps_of(plan: Result<Seq<RepoActionView>, Failure>) -> Seq<RepoActionView> {
    match plan {
        Ok(actions) => actions,
        Err(_) => Seq::<RepoActionView>::empty(),
    }
}

/// Branches of one kind have the same name only for the same version.
pub proof fn lemma_branch_name_injective(kind: BranchType, a: Seq<char>, b: Seq<char>)
    requires
        branch_name(kind, a) == branch_name(kind, b),
    ensures
        a == b,
{
    let front = kind.spec_prefix() + seq!['/'];
    assert(branch_name(kind, a).subrange(front.len() as int, branch_name(kind, a).len() as int)
        =~= a);
    assert(branch_name(kind, b).subrange(front.len() as int, branch_name(kind, b).len() as int)
        =~= b);
}

/// The repository after no step.
proof fn lemma_after_none(repo: RepoModel, merged: Option<Seq<char>>)
    ensures
        repo.after_all(Seq::<RepoActionView>::empty(), merged) == Some(repo),
{
}

/// The repository after one step alone.
proof fn lemma_after_one(repo: RepoModel, action: RepoActionView, merged: Option<Seq<char>>)
    ensures
        repo.after_all(seq![action], merged) == repo.after(action, merged),
{
    assert(seq![action].drop_last() =~= Seq::<RepoActionView>::empty());
    assert(repo.after_all(Seq::<RepoActionView>::empty(), merged) == Some(repo));
}

/// The repository after two steps.
proof fn lemma_after_two(
    repo: RepoModel,
    first: RepoActionView,
    second: RepoActionView,
    merged: Option<Seq<char>>,
)
    ensures
        repo.after_all(seq![first, second], merged) == match repo.after(first, merged) {
            Some(next) => next.after(second, merged),
            None => None,
        },
{
    lemma_after_one(repo, first, merged);
    assert(seq![first, second].drop_last() =~= seq![first]);
}

/// The repository after three steps.
proof fn lemma_after_three(
    repo: RepoModel,
    first: RepoActionView,
    second: RepoActionView,
    third: RepoActionView,
    merged: Option<Seq<char>>,
)
    ensures
        repo.after_all(seq![first, second, third], merged) == match repo.after_all(
            seq![first, second],
            merged,
        ) {
            Some(next) => next.after(third, merged),
            None => None,
        },
{
    assert(seq![first, second, third].drop_last() =~= seq![first, second]);
}

/// Making sure of the staged version's branch twice in a row, with the
/// version state unchanged, is the same as doing it once: a plan that was
/// made can be carried out, and then the second plan holds no step.
pub proof fn lemma_ensure_branch_is_idempotent(
    config: ProjectConfigView,
    repo: RepoModel,
    merged: Option<Seq<char>>,
)
    requires
        config.ensure_branch(repo.branches.dom()).is_ok(),
    ensures
        repo.after_all(config.ensure_branch(repo.branches.dom())->Ok_0, merged).is_some(),
        config.ensure_branch(
            repo.after_all(
                config.ensure_branch(repo.branches.dom())->Ok_0,
                merged,
            ).unwrap().branches.dom(),
        ) == Ok::<Seq<RepoActionView>, Failure>(Seq::<RepoActionView>::empty()),
{
    let next = config.next.unwrap();
    let first = config.ensure_branch(repo.branches.dom())->Ok_0;
    if config.prev.is_some() && config.prev != Some(next) {
        if branch_name(config.branch_type, config.prev.unwrap()) == branch_name(
            config.branch_type,
            next,
        ) {
            lemma_branch_name_injective(config.branch_type, config.prev.unwrap(), next);
        }
    }
    if first.len() == 0 {
        lemma_after_none(repo, merged);
    } else {
        lemma_after_one(repo, first[0], merged);
        assert(first =~= seq![first[0]]);
    }
}

/// Once the staged version's branch is made sure of, it is there: under the
/// tip of the branch of the version staged before, where that branch was
/// renamed, and so with the commits made on it; under the tip that it had,
/// where it was there already; else under the tip of the main branch.
pub proof fn lemma_ensure_branch_gives_the_branch(
    config: ProjectConfigView,
    repo: RepoModel,
    merged: Option<Seq<char>>,
)
    requires
        config.ensure_branch(repo.branches.dom()).is_ok(),
    ensures
        repo.after_all(config.ensure_branch(repo.branches.dom())->Ok_0, merged).is_some(),
        ({
            let staged = config.next_branch().unwrap();
            let once = repo.after_all(
                config.ensure_branch(repo.branches.dom())->Ok_0,
                merged,
            ).unwrap();
            &&& once.has(staged)
            &&& once.branches[staged] == if config.prev.is_some() && config.prev != config.next
                && repo.has(config.prev_branch().unwrap()) {
                repo.branches[config.prev_branch().unwrap()]
            } else if repo.has(staged) {
                repo.branches[staged]
            } else {
                repo.branches[config.main_branch]
            }
        }),
{
    let next = config.next.unwrap();
    let first = config.ensure_branch(repo.branches.dom())->Ok_0;
    if config.prev.is_some() && config.prev != Some(next) {
        if branch_name(config.branch_type, config.prev.unwrap()) == branch_name(
            config.branch_type,
            next,
        ) {
            lemma_branch_name_injective(config.branch_type, config.prev.unwrap(), next);
        }
    }
    if first.len() == 0 {
        lemma_after_none(repo, merged);
    } else {
        lemma_after_one(repo, first[0], merged);
        assert(first =~= seq![first[0]]);
    }
}

/// A fast-forward merge leaves the main branch at the tip that the staged
/// branch had, and the staged branch deleted. This holds where both
/// branches are there, under different names, and the staged branch is
/// ahead of the main branch.
pub proof fn lemma_fast_forward_merge(
    config: ProjectConfigView,
    repo: RepoModel,
    analysis: u32,
    ahead: nat,
    merged: Option<Seq<char>>,
)
    requires
        config.next.is_some(),
        merge_kind(analysis) == MergeKind::FastForward,
        ahead > 0,
        repo.has(config.main_branch),
        repo.has(config.next_branch().unwrap()),
        config.next_branch().unwrap() != config.main_branch,
    ensures
        config.merge(analysis, ahead).is_ok(),
        repo.after_all(config.merge(analysis, ahead)->Ok_0, merged).is_some(),
        ({
            let after = repo.after_all(config.merge(analysis, ahead)->Ok_0, merged).unwrap();
            &&& after.branches[config.main_branch] == repo.branches[config.next_branch().unwrap()]
            &&& after.has(config.main_branch)
            &&& !after.has(config.next_branch().unwrap())
            &&& after.head == config.main_branch
        }),
{
    let staged = config.next_branch().unwrap();
    let steps = config.merge(analysis, ahead)->Ok_0;
    let checkout = checkout_of(config.main_branch);
    let forward = RepoActionView::FastForward { branch: config.main_branch, to: staged };
    let delete = RepoActionView::Delete { name: staged };
    assert(steps =~= seq![checkout, forward, delete]);
    lemma_after_two(repo, checkout, forward, merged);
    lemma_after_three(repo, checkout, forward, delete, merged);
}

/// A normal merge whose changes do not conflict leaves the main branch at
/// the commit of the merge, the staged branch deleted, and no merge under
/// way. This holds where both branches are there, under different names,
/// and no merge is under way before.
pub proof fn lemma_normal_merge(
    config: ProjectConfigView,
    repo: RepoModel,
    analysis: u32,
    ahead: nat,
    commit: Seq<char>,
)
    requires
        config.next.is_some(),
        merge_kind(analysis) == MergeKind::Normal,
        repo.has(config.main_branch),
        repo.has(config.next_branch().unwrap()),
        config.next_branch().unwrap() != config.main_branch,
        repo.merging.is_none(),
    ensures
        config.merge(analysis, ahead).is_ok(),
        config.merge_outcome(false).is_ok(),
        repo.after_all(
            config.merge(analysis, ahead)->Ok_0 + config.merge_outcome(false)->Ok_0,
            Some(commit),
        ).is_some(),
        ({
            let after = repo.after_all(
                config.merge(analysis, ahead)->Ok_0 + config.merge_outcome(false)->Ok_0,
                Some(commit),
            ).unwrap();
            &&& after.branches[config.main_branch] == commit
            &&& after.has(config.main_branch)
            &&& !after.has(config.next_branch().unwrap())
            &&& after.head == config.main_branch
            &&& after.merging.is_none()
        }),
{
    let staged = config.next_branch().unwrap();
    let merged = Some(commit);
    let checkout = checkout_of(config.main_branch);
    let merge = RepoActionView::Merge { branch: config.main_branch, from: staged };
    let conclude = RepoActionView::CommitMerge {
        branch: config.main_branch,
        from: staged,
        message: merge_message(staged),
    };
    let delete = RepoActionView::Delete { name: staged };
    let steps = config.merge(analysis, ahead)->Ok_0 + config.merge_outcome(false)->Ok_0;
    assert(config.merge(analysis, ahead)->Ok_0 =~= seq![checkout, merge]);
    assert(steps =~= seq![checkout, merge, conclude, delete]);
    lemma_after_two(repo, checkout, merge, merged);
    lemma_after_three(repo, checkout, merge, conclude, merged);
    assert(steps.drop_last() =~= seq![checkout, merge, conclude]);
}

/// A normal merge whose changes conflict fails with the conflict as its
/// failure, and once the step that comes with the failure is carried out,
/// the main branch is at the tip that it had, the staged branch is there at
/// its tip, and no merge is under way: nothing is half applied. The merge
/// cannot be committed instead. This holds where both branches are there,
/// under different names, and no merge is under way before.
pub proof fn lemma_conflicted_merge(
    config: ProjectConfigView,
    repo: RepoModel,
    analysis: u32,
    ahead: nat,
)
    requires
        config.next.is_some(),
        merge_kind(analysis) == MergeKind::Normal,
        repo.has(config.main_branch),
        repo.has(config.next_branch().unwrap()),
        config.next_branch().unwrap() != config.main_branch,
        repo.merging.is_none(),
    ensures
        config.merge(analysis, ahead).is_ok(),
        config.merge_outcome(true).is_err(),
        config.merge_outcome(true)->Err_0.failure == Failure::MergeConflict,
        repo.after_all(config.merge(analysis, ahead)->Ok_0, None).is_some(),
        repo.after_all(config.merge(analysis, ahead)->Ok_0, None).unwrap().after_all(
            config.merge_outcome(false)->Ok_0,
            None,
        ).is_none(),
        repo.after_all(
            config.merge(analysis, ahead)->Ok_0 + config.merge_outcome(true)->Err_0.actions,
            None,
        ) == Some(RepoModel { head: config.main_branch, ..repo }),
{
    let staged = config.next_branch().unwrap();
    let merged = None::<Seq<char>>;
    let checkout = checkout_of(config.main_branch);
    let merge = RepoActionView::Merge { branch: config.main_branch, from: staged };
    let abort = RepoActionView::AbortMerge { branch: config.main_branch };
    let conclude = RepoActionView::CommitMerge {
        branch: config.main_branch,
        from: staged,
        message: merge_message(staged),
    };
    let delete = RepoActionView::Delete { name: staged };
    assert(config.merge(analysis, ahead)->Ok_0 =~= seq![checkout, merge]);
    assert(config.merge(analysis, ahead)->Ok_0 + config.merge_outcome(true)->Err_0.actions
        =~= seq![checkout, merge, abort]);
    lemma_after_two(repo, checkout, merge, merged);
    lemma_after_three(repo, checkout, merge, abort, merged);
    let begun = repo.after_all(seq![checkout, merge], merged).unwrap();
    assert(config.merge_outcome(false)->Ok_0 =~= seq![conclude, delete]);
    lemma_after_two(begun, conclude, delete, merged);
}

/// A merge that is refused on its analysis plans no step: the repository
/// stays as it is.
pub proof fn lemma_refused_merge(
    config: ProjectConfigView,
    repo: RepoModel,
    analysis: u32,
    ahead: nat,
    merged: Option<Seq<char>>,
)
    requires
        config.next.is_some(),
        merge_kind(analysis) == MergeKind::Conflicted,
    ensures
        config.merge(analysis, ahead) == Err::<Seq<RepoActionView>, Failure>(
            Failure::MergeConflict,
        ),
        repo.after_all(steps_of(config.merge(analysis, ahead)), merged) == Some(repo),
{
}

/// The tags of a repository after a release commit was carried out.
pub open spec fn tags_after(tags: Set<Seq<char>>, plan: CommitPlanView) -> Set<Seq<char>> {
    tags.insert(plan.tag)
}

/// A release commit cannot be made twice for one version: once the first
/// is carried out, the version's tag is there and the second is refused.
pub proof fn lemma_commit_is_not_repeated(
    config: ProjectConfigView,
    paths: Seq<Seq<char>>,
    author_name: Option<Seq<char>>,
    author_email: Option<Seq<char>>,
    tags: Set<Seq<char>>,
)
    requires
        config.commit(paths, author_name, author_email, tags).is_ok(),
    ensures
        config.commit(
            paths,
            author_name,
            author_email,
            tags_after(tags, config.commit(paths, author_name, author_email, tags)->Ok_0),
        ) == Err::<CommitPlanView, Failure>(Failure::TagAlreadyExists),
{
}

} // verus!
