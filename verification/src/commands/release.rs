use vstd::prelude::*;
use vstd::string::*;
use crate::libs::changelog::DEFAULT_OUTPUT;
use crate::libs::git::{
    action_views, merge_kind, merge_report, tag_name, CommitPlan, Git, MergeKind, MergePlan,
};
use crate::libs::msg::{
    Failure, Level, Msg, MsgView, FILES_ARE_MISSING, RELEASE_COMPLETED_SUCCESSFULLY,
    RELEASE_FAILED,
};
use crate::libs::pattern::{regex_compiles, regex_replaced, replace};
use crate::libs::project_config::{ProjectConfig, ProjectConfigView, PROJECT_CONFIG};
use crate::libs::text::{join_strings, joined, opt_view, push_char, slice_views, views};

verus! {

/// What the caller gives to release the staged version.
#[derive(Debug, PartialEq, Eq)]
pub struct ReleaseArgs {
    pub project_folder: Option<String>,
}

/// The part of the pattern of a package's version before the package's
/// name.
pub const VERSION_PATTERN_HEAD: &'static str = "(?m)(\"*name(\"|\\s)(:|=)\\s\"";

/// The part of the pattern of a package's version after the package's name.
pub const VERSION_PATTERN_TAIL: &'static str =
    "\",*\\s*(\"*version(\"|\\s)(:|=)\\s))(\"\\d+\\.\\d+\\.\\d+\")";

/// The pattern of the place in a manifest that holds the version of the
/// package of this name: the name, then the version as three numbers in
/// quotes. Its first group is all that stands before the version.
pub open spec fn version_pattern(project_name: Seq<char>) -> Seq<char> {
    VERSION_PATTERN_HEAD@ + project_name + VERSION_PATTERN_TAIL@
}

/// The text with each dollar sign doubled, so that a replacement takes it
/// for itself.
pub open spec fn escaped(s: Seq<char>) -> Seq<char>
    decreases s.len(),
{
    if s.len() == 0 {
        Seq::<char>::empty()
    } else if s.last() == '$' {
        escaped(s.drop_last()) + seq!['$', '$']
    } else {
        escaped(s.drop_last()).push(s.last())
    }
}

/// The replacement that keeps what stands before the version and puts the
/// given version, in quotes, in the place of the old one.
pub open spec fn version_replacement(version: Seq<char>) -> Seq<char> {
    "${1}\""@ + escaped(version) + "\""@
}

/// Doubles each dollar sign.
fn escape(s: &str) -> (r: String)
    ensures
        r@ == escaped(s@),
{
    let mut out = String::new();
    assert(s@.subrange(0, 0) =~= Seq::<char>::empty());
    for c in it: s.chars()
        invariant
            it.seq() == s@,
            out@ == escaped(s@.subrange(0, it.index() as int)),
    {
        let ghost seen = s@.subrange(0, it.index() + 1);
        assert(seen.drop_last() =~= s@.subrange(0, it.index() as int));
        assert(seen.last() == c);
        if c == '$' {
            push_char(&mut out, '$');
            push_char(&mut out, '$');
        } else {
            push_char(&mut out, c);
        }
        assert(out@ =~= escaped(seen));
    }
    assert(s@.subrange(0, s@.len() as int) =~= s@);
    out
}

/// The contents of a manifest with the version of the named package set to
/// `next_version`: the first place that the pattern of the package's
/// version matches has its version replaced. Fails where the pattern made
/// with the name is not a regular expression, and only then.
pub fn update_version_in_file(contents: &str, project_name: &str, next_version: &str) -> (r:
    Result<String, Failure>)
    ensures
        match r {
            Ok(text) => regex_compiles(version_pattern(project_name@)) && text@ == regex_replaced(
                version_pattern(project_name@),
                contents@,
                version_replacement(next_version@),
            ),
            Err(failure) => failure == Failure::InvalidPattern && !regex_compiles(
                version_pattern(project_name@),
            ),
        },
{
    let mut pattern = String::from_str(VERSION_PATTERN_HEAD);
    pattern.append(project_name);
    pattern.append(VERSION_PATTERN_TAIL);
    let mut replacement = String::from_str("${1}\"");
    replacement.append(escape(next_version).as_str());
    replacement.append("\"");
    match replace(pattern.as_str(), contents, replacement.as_str()) {
        Some(text) => Ok(text),
        None => Err(Failure::InvalidPattern),
    }
}

/// What a release comes to: the merge of the staged branch, the
/// configuration to save, the manifests whose version is to be set, the
/// path of the changelog, the release commit with its tag, what to tell the
/// user, and the directory in which the package is then published, if it
/// is. The caller carries these out in this order. The steps of a normal
/// merge end with its merge step: what follows that step is planned by
/// `Git::merge_outcome`, for the configuration as it was, and the rest of
/// the release is carried out only where the merge went through.
#[derive(Debug, PartialEq, Eq)]
pub struct ReleasePlan {
    pub merge: MergePlan,
    pub project_config: ProjectConfig,
    pub manifests: Vec<String>,
    pub changelog: String,
    pub commit: CommitPlan,
    pub message: Msg,
    pub publish: Option<String>,
}

/// Why a release was not planned, and what to tell the user.
#[derive(Debug, PartialEq, Eq)]
pub struct ReleaseRefusal {
    pub failure: Failure,
    pub messages: Vec<Msg>,
}

/// The views of a list of messages.
pub open spec fn msg_views(v: Seq<Msg>) -> Seq<MsgView> {
    Seq::new(v.len(), |i: int| v[i]@)
}

/// The text that lists the files that are not there.
pub open spec fn missing_report(missing: Seq<Seq<char>>) -> Seq<char> {
    FILES_ARE_MISSING@ + seq!['\n'] + joined(missing, '\n')
}

/// The text that tells of the release that was made.
pub open spec fn release_report(version: Seq<char>) -> Seq<char> {
    RELEASE_COMPLETED_SUCCESSFULLY@ + seq![' '] + version
}

impl ProjectConfigView {
    /// Why the release cannot be planned, if it cannot: no version is
    /// staged; files that hold the version are not there; the merge needs a
    /// person; the staged version's tag is already there.
    pub open spec fn release_refused(
        self,
        missing: Seq<Seq<char>>,
        analysis: u32,
        tags: Set<Seq<char>>,
    ) -> Option<Failure> {
        match self.next {
            None => Some(Failure::ReleaseVersionNotSet),
            Some(next) => if missing.len() > 0 {
                Some(Failure::FilesMissing)
            } else if merge_kind(analysis) == MergeKind::Conflicted {
                Some(Failure::MergeConflict)
            } else if tags.contains(tag_name(next)) {
                Some(Failure::TagAlreadyExists)
            } else {
                None
            },
        }
    }

    /// The path that the changelog is written to.
    pub open spec fn changelog_path(self) -> Seq<char> {
        match self.changelog {
            Some(path) => path,
            None => DEFAULT_OUTPUT@,
        }
    }

    /// The paths that the release commit stages: the manifests, the
    /// changelog and the configuration file.
    pub open spec fn release_paths(self) -> Seq<Seq<char>> {
        self.paths().push(self.changelog_path()).push(PROJECT_CONFIG@)
    }
}

/// What to tell the user of a release that was not planned.
pub open spec fn refusal_messages(failure: Failure, missing: Seq<Seq<char>>) -> Seq<MsgView> {
    if failure == Failure::FilesMissing {
        seq![
            MsgView { text: RELEASE_FAILED@, level: Level::Error },
            MsgView { text: missing_report(missing), level: Level::Warn },
        ]
    } else {
        seq![
            MsgView { text: failure.spec_text(), level: failure.spec_level() },
        ]
    }
}

/// The refusal for a failure, with what to tell the user.
fn refuse(failure: Failure, missing: &Vec<String>) -> (r: ReleaseRefusal)
    ensures
        r.failure == failure,
        msg_views(r.messages@) == refusal_messages(failure, views(missing@)),
{
    let mut messages: Vec<Msg> = Vec::new();
    match failure {
        Failure::FilesMissing => {
            messages.push(Msg::new(RELEASE_FAILED).error());
            proof {
                reveal_strlit("\n");
            }
            let mut text = String::from_str(FILES_ARE_MISSING);
            text.append("\n");
            text.append(join_strings(missing, '\n').as_str());
            assert(text@ =~= missing_report(views(missing@)));
            messages.push(Msg::new(text.as_str()).warn());
        },
        _ => {
            messages.push(failure.message());
        },
    }
    assert(msg_views(messages@) =~= refusal_messages(failure, views(missing@)));
    ReleaseRefusal { failure, messages }
}

/// Plans the release of the staged version, or refuses before anything is
/// changed. `non_existent_files` holds those of the project's manifests
/// that are not there; `analysis` the bits of the `git2::MergeAnalysis` of
/// the staged branch against the main branch, and `ahead` the number of
/// commits by which the staged branch is ahead; `author_name` and
/// `author_email` what the repository has configured; `tags` the names of
/// the repository's tags.
pub fn cmd(
    project_config: ProjectConfig,
    _release_args: ReleaseArgs,
    non_existent_files: Vec<String>,
    analysis: u32,
    ahead: usize,
    author_name: Option<String>,
    author_email: Option<String>,
    tags: &Vec<String>,
) -> (r: Result<ReleasePlan, ReleaseRefusal>)
    ensures
        match project_config@.release_refused(
            views(non_existent_files@),
            analysis,
            views(tags@).to_set(),
        ) {
            Some(failure) => r is Err && r->Err_0.failure == failure && msg_views(
                r->Err_0.messages@,
            ) == refusal_messages(failure, views(non_existent_files@)),
            None => {
                let released = project_config@.next_to_current()->Ok_0;
                &&& r is Ok
                &&& r->Ok_0.merge.kind == merge_kind(analysis)
                &&& action_views(r->Ok_0.merge.actions@) == project_config@.merge(
                    analysis,
                    ahead as nat,
                )->Ok_0
                &&& r->Ok_0.merge.message@ == (MsgView {
                    text: merge_report(merge_kind(analysis)),
                    level: Level::Info,
                })
                &&& r->Ok_0.project_config@ == released
                &&& views(r->Ok_0.manifests@) == released.paths()
                &&& r->Ok_0.changelog@ == released.changelog_path()
                &&& r->Ok_0.commit@ == released.commit(
                    released.release_paths(),
                    opt_view(author_name),
                    opt_view(author_email),
                    views(tags@).to_set(),
                )->Ok_0
                &&& r->Ok_0.message@ == (MsgView {
                    text: release_report(released.current),
                    level: Level::Info,
                })
                &&& opt_view(r->Ok_0.publish) == released.publish()
            },
        },
{
    let mut project_config = project_config;
    if project_config.next.is_none() {
        return Err(refuse(Failure::ReleaseVersionNotSet, &non_existent_files));
    }
    if non_existent_files.len() > 0 {
        return Err(refuse(Failure::FilesMissing, &non_existent_files));
    }
    let merge = match Git::new(&project_config).merge(analysis, ahead) {
        Ok(plan) => plan,
        Err(failure) => {
            return Err(refuse(failure, &non_existent_files));
        },
    };
    proof {
        reveal_strlit(" ");
    }
    let promoted = project_config.next_to_current();
    assert(promoted is Ok);
    let manifests = project_config.paths();
    let changelog = match &project_config.changelog {
        Some(path) => path.clone(),
        None => String::from_str(DEFAULT_OUTPUT),
    };
    let mut paths: Vec<&str> = Vec::new();
    let mut i: usize = 0;
    while i < manifests.len()
        invariant
            i <= manifests.len(),
            paths@.len() == i,
            forall|j: int| 0 <= j < i ==> paths@[j]@ == manifests@[j]@,
        decreases manifests.len() - i,
    {
        paths.push(manifests[i].as_str());
        i = i + 1;
    }
    paths.push(changelog.as_str());
    paths.push(PROJECT_CONFIG);
    assert(slice_views(paths@) =~= project_config@.release_paths());
    let git = Git::new(&project_config);
    let commit = match git.commit(paths, author_name, author_email, tags) {
        Ok(plan) => plan,
        Err(failure) => {
            return Err(refuse(failure, &non_existent_files));
        },
    };
    let mut text = String::from_str(RELEASE_COMPLETED_SUCCESSFULLY);
    text.append(" ");
    text.append(project_config.current.as_str());
    assert(text@ =~= release_report(project_config@.current));
    let publish = project_config.publish();
    Ok(
        ReleasePlan {
            merge,
            project_config,
            manifests,
            changelog,
            commit,
            message: Msg::new(text.as_str()).info(),
            publish,
        },
    )
}

} // verus!
