use vstd::prelude::*;
use vstd::string::*;
use crate::libs::git::tag_name;
use crate::libs::msg::{Level, Msg, MsgView, LAST_COMMIT_WAS_REMOVED};
use crate::libs::project_config::ProjectConfig;

verus! {

/// What the caller gives to undo the last release.
#[derive(Debug, PartialEq, Eq)]
pub struct ResetArgs {
    pub version: Option<String>,
}

/// What undoing the last release comes to: the tag to delete, with the
/// commit that it stands on, and what to tell the user.
#[derive(Debug, PartialEq, Eq)]
pub struct ResetOutcome {
    pub tag: String,
    pub message: Msg,
}

/// Undoes the last release: plans the removal of the current version's tag
/// and of the release commit.
pub fn cmd(project_config: &ProjectConfig, _reset_args: ResetArgs) -> (r: ResetOutcome)
    ensures
        r.tag@ == tag_name(project_config@.current),
        r.message@ == (MsgView { text: LAST_COMMIT_WAS_REMOVED@, level: Level::Info }),
{
    proof {
        reveal_strlit("v");
    }
    let mut tag = String::from_str("v");
    tag.append(project_config.current.as_str());
    assert(tag@ =~= tag_name(project_config@.current));
    ResetOutcome { tag, message: Msg::new(LAST_COMMIT_WAS_REMOVED).info() }
}

} // verus!
