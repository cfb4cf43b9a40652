//! The changelog's release chain: how a linear history of commits is cut
//! into releases at the commits that carry a version tag.

use vstd::prelude::*;
use vstd::string::*;
use crate::libs::msg::{Failure, Level, Msg, MsgView};
use crate::libs::pattern::{is_match, is_valid, regex_compiles, regex_matches};
use crate::libs::project_config::ProjectConfig;
use crate::libs::text::{blank, clone_opt, is_blank, join_strings, joined, opt_view, views};

verus! {

/// Where the changelog is written unless the configuration names another
/// place.
pub const DEFAULT_OUTPUT: &'static str = "CHANGELOG.md";

/// A commit, as far as the changelog reads it.
#[derive(Debug, PartialEq, Eq)]
pub struct Commit {
    pub id: String,
    pub message: String,
    pub author: String,
    pub timestamp: i64,
}

/// A commit as the contracts see it.
pub struct CommitView {
    pub id: Seq<char>,
    pub message: Seq<char>,
    pub author: Seq<char>,
    pub timestamp: int,
}

impl View for Commit {
    type V = CommitView;

    open spec fn view(&self) -> CommitView {
        CommitView {
            id: self.id@,
            message: self.message@,
            author: self.author@,
            timestamp: self.timestamp as int,
        }
    }
}

impl Clone for Commit {
    fn clone(&self) -> (r: Self)
        ensures
            r@ == self@,
    {
        Commit {
            id: self.id.clone(),
            message: self.message.clone(),
            author: self.author.clone(),
            timestamp: self.timestamp,
        }
    }
}

/// A version tag: the id of the commit that carries it, and its name.
#[derive(Debug, PartialEq, Eq)]
pub struct Tag {
    pub commit_id: String,
    pub name: String,
}

/// A tag as the contracts see it.
pub struct TagView {
    pub commit_id: Seq<char>,
    pub name: Seq<char>,
}

impl View for Tag {
    type V = TagView;

    open spec fn view(&self) -> TagView {
        TagView { commit_id: self.commit_id@, name: self.name@ }
    }
}

impl Clone for Tag {
    fn clone(&self) -> (r: Self)
        ensures
            r@ == self@,
    {
        Tag { commit_id: self.commit_id.clone(), name: self.name.clone() }
    }
}

/// One release of the chain. A sealed release ends at its boundary commit,
/// whose tag, id and time it carries; the open release at the head of the
/// chain carries none. The releases of a chain stand in one list, oldest
/// first, and `previous` is the place of the release before this one.
#[derive(Debug, PartialEq, Eq)]
pub struct Release {
    pub version: Option<String>,
    pub commit_id: Option<String>,
    pub timestamp: i64,
    pub commits: Vec<Commit>,
    pub previous: Option<usize>,
}

/// A release as the contracts see it.
pub struct ReleaseView {
    pub version: Option<Seq<char>>,
    pub commit_id: Option<Seq<char>>,
    pub timestamp: int,
    pub commits: Seq<CommitView>,
    pub previous: Option<int>,
}

/// The views of a list of commits.
pub open spec fn commit_views(v: Seq<Commit>) -> Seq<CommitView> {
    Seq::new(v.len(), |i: int| v[i]@)
}

/// The views of a list of tags.
pub open spec fn tag_views(v: Seq<Tag>) -> Seq<TagView> {
    Seq::new(v.len(), |i: int| v[i]@)
}

impl View for Release {
    type V = ReleaseView;

    open spec fn view(&self) -> ReleaseView {
        ReleaseView {
            version: opt_view(self.version),
            commit_id: opt_view(self.commit_id),
            timestamp: self.timestamp as int,
            commits: commit_views(self.commits@),
            previous: match self.previous {
                Some(p) => Some(p as int),
                None => None,
            },
        }
    }
}

impl Clone for Release {
    fn clone(&self) -> (r: Self)
        ensures
            r@ == self@,
    {
        let mut commits: Vec<Commit> = Vec::new();
        let mut i: usize = 0;
        while i < self.commits.len()
            invariant
                i <= self.commits.len(),
                commits@.len() == i,
                forall|j: int| 0 <= j < i ==> commits@[j]@ == self.commits@[j]@,
            decreases self.commits.len() - i,
        {
            commits.push(self.commits[i].clone());
            i = i + 1;
        }
        assert(commit_views(commits@) =~= commit_views(self.commits@));
        Release {
            version: clone_opt(&self.version),
            commit_id: clone_opt(&self.commit_id),
            timestamp: self.timestamp,
            commits,
            previous: self.previous,
        }
    }
}

/// The views of a list of releases.
pub open spec fn release_views(v: Seq<Release>) -> Seq<ReleaseView> {
    Seq::new(v.len(), |i: int| v[i]@)
}

/// What the assembler reads of the changelog's configuration: the pattern
/// of the tags that count as version tags, the pattern of tags that end a
/// release though they are to be skipped later, the pattern of tags to
/// leave out, and how many commits to read at most.
#[derive(Debug, PartialEq, Eq)]
pub struct GitConfig {
    pub tag_pattern: Option<String>,
    pub skip_tags: Option<String>,
    pub ignore_tags: Option<String>,
    pub limit_commits: Option<usize>,
}

/// The changelog's configuration as the contracts see it.
pub struct GitConfigView {
    pub tag_pattern: Option<Seq<char>>,
    pub skip_tags: Option<Seq<char>>,
    pub ignore_tags: Option<Seq<char>>,
    pub limit_commits: Option<nat>,
}

impl View for GitConfig {
    type V = GitConfigView;

    open spec fn view(&self) -> GitConfigView {
        GitConfigView {
            tag_pattern: opt_view(self.tag_pattern),
            skip_tags: opt_view(self.skip_tags),
            ignore_tags: opt_view(self.ignore_tags),
            limit_commits: match self.limit_commits {
                Some(n) => Some(n as nat),
                None => None,
            },
        }
    }
}

/// Whether the pattern is a regular expression and matches somewhere in the
/// text.
pub open spec fn pattern_matches(pattern: Seq<char>, text: Seq<char>) -> bool {
    regex_compiles(pattern) && regex_matches(pattern, text)
}

impl Clone for GitConfig {
    fn clone(&self) -> (r: Self)
        ensures
            r@ == self@,
    {
        GitConfig {
            tag_pattern: clone_opt(&self.tag_pattern),
            skip_tags: clone_opt(&self.skip_tags),
            ignore_tags: clone_opt(&self.ignore_tags),
            limit_commits: self.limit_commits,
        }
    }
}

impl GitConfigView {
    /// Each pattern, where given, is a regular expression.
    pub open spec fn patterns_valid(self) -> bool {
        &&& match self.tag_pattern {
            Some(p) => regex_compiles(p),
            None => true,
        }
        &&& match self.skip_tags {
            Some(p) => regex_compiles(p),
            None => true,
        }
        &&& match self.ignore_tags {
            Some(p) => regex_compiles(p),
            None => true,
        }
    }

    /// Whether a tag of this name stays in the tag list. It has to match
    /// the tag pattern, where there is one. A tag that the ignore pattern
    /// matches is dropped, unless the skip pattern matches it too. An ignore
    /// pattern of white space only matches nothing.
    pub open spec fn keeps(self, name: Seq<char>) -> bool {
        let counted = match self.tag_pattern {
            Some(p) => pattern_matches(p, name),
            None => true,
        };
        let skipped = match self.skip_tags {
            Some(p) => pattern_matches(p, name),
            None => false,
        };
        let ignored = match self.ignore_tags {
            Some(p) => !blank(p) && pattern_matches(p, name),
            None => false,
        };
        counted && (skipped || !ignored)
    }
}

/// The tags that stay, in their order.
pub open spec fn kept_tags(tags: Seq<TagView>, config: GitConfigView) -> Seq<TagView>
    decreases tags.len(),
{
    if tags.len() == 0 {
        Seq::<TagView>::empty()
    } else {
        let init = kept_tags(tags.drop_last(), config);
        if config.keeps(tags.last().name) {
            init.push(tags.last())
        } else {
            init
        }
    }
}

/// The commits that are read: all of them, or the newest `limit` where a
/// limit is set. The list has the newest commit first.
pub open spec fn limited(commits: Seq<CommitView>, limit: Option<nat>) -> Seq<CommitView> {
    match limit {
        Some(n) => if n < commits.len() {
            commits.subrange(0, n as int)
        } else {
            commits
        },
        None => commits,
    }
}

/// The place of the first tag on the commit with this id.
pub open spec fn tag_index(tags: Seq<TagView>, id: Seq<char>) -> Option<int>
    decreases tags.len(),
{
    if tags.len() == 0 {
        None
    } else {
        match tag_index(tags.drop_last(), id) {
            Some(i) => Some(i),
            None => if tags.last().commit_id == id {
                Some(tags.len() - 1)
            } else {
                None
            },
        }
    }
}

/// A tag list that is a map from commits to names: no commit has two tags
/// in it. The lists that the release chain is made from are of this kind.
pub open spec fn one_tag_each(tags: Seq<TagView>) -> bool
    decreases tags.len(),
{
    tags.len() == 0 || (one_tag_each(tags.drop_last()) && tag_index(
        tags.drop_last(),
        tags.last().commit_id,
    ).is_none())
}

/// The name of the first tag on the commit with this id.
pub open spec fn tag_of(tags: Seq<TagView>, id: Seq<char>) -> Option<Seq<char>> {
    match tag_index(tags, id) {
        Some(i) => Some(tags[i].name),
        None => None,
    }
}

/// The place of the first tag of this name.
pub open spec fn name_index(tags: Seq<TagView>, name: Seq<char>) -> Option<int>
    decreases tags.len(),
{
    if tags.len() == 0 {
        None
    } else {
        match name_index(tags.drop_last(), name) {
            Some(i) => Some(i),
            None => if tags.last().name == name {
                Some(tags.len() - 1)
            } else {
                None
            },
        }
    }
}

/// The tags with the version in flight on the newest commit, where that
/// commit has no tag yet. A tag that the commit already has is left alone.
pub open spec fn with_tip(tags: Seq<TagView>, commits: Seq<CommitView>, current: Seq<char>) -> Seq<
    TagView,
> {
    if commits.len() > 0 && tag_index(tags, commits[0].id).is_none() {
        tags.push(TagView { commit_id: commits[0].id, name: current })
    } else {
        tags
    }
}

/// A release that is open and holds nothing.
pub open spec fn open_release() -> ReleaseView {
    ReleaseView {
        version: None,
        commit_id: None,
        timestamp: 0,
        commits: Seq::<CommitView>::empty(),
        previous: None,
    }
}

/// The releases that a walk through the history, oldest commit first, cuts
/// it into. Each commit goes into the open release; a commit with a tag
/// seals that release under the tag's name, with the commit's id and time,
/// and a new open release follows. The last release is the open one.
pub open spec fn walk(history: Seq<CommitView>, tags: Seq<TagView>) -> Seq<ReleaseView>
    decreases history.len(),
{
    if history.len() == 0 {
        seq![open_release()]
    } else {
        let before = walk(history.drop_last(), tags);
        let commit = history.last();
        let filled = ReleaseView { commits: before.last().commits.push(commit), ..before.last() };
        match tag_of(tags, commit.id) {
            Some(name) => before.drop_last().push(
                ReleaseView {
                    version: Some(name),
                    commit_id: Some(commit.id),
                    timestamp: commit.timestamp,
                    ..filled
                },
            ).push(open_release()),
            None => before.drop_last().push(filled),
        }
    }
}

/// The name of the tag on the oldest commit of the history that has one.
pub open spec fn first_boundary(history: Seq<CommitView>, tags: Seq<TagView>) -> Option<Seq<char>>
    decreases history.len(),
{
    if history.len() == 0 {
        None
    } else {
        match first_boundary(history.drop_last(), tags) {
            Some(name) => Some(name),
            None => tag_of(tags, history.last().id),
        }
    }
}

/// A release without commits that stands for a tag.
pub open spec fn carrying(tag: TagView) -> ReleaseView {
    ReleaseView { version: Some(tag.name), commit_id: Some(tag.commit_id), ..open_release() }
}

/// The release that comes before the oldest release of the walk. It stands
/// for the tag that is listed just before the first tag that sealed a
/// release; where that tag is the first of the list there is none. Where
/// no tag sealed a release, it stands for the oldest tag known, which is the
/// first of the list.
pub open spec fn earlier(history: Seq<CommitView>, tags: Seq<TagView>) -> Option<ReleaseView> {
    match first_boundary(history, tags) {
        Some(name) => match name_index(tags, name) {
            Some(i) => if i > 0 {
                Some(carrying(tags[i - 1]))
            } else {
                None
            },
            None => None,
        },
        None => if tags.len() > 0 {
            Some(carrying(tags[0]))
        } else {
            None
        },
    }
}

/// The text that tells of a tag that the newest commit has already.
pub open spec fn tip_report(tag: Seq<char>, commit_id: Seq<char>) -> Seq<char> {
    "There is already a tag ("@ + tag + ") for "@ + commit_id
}

/// The warning that the newest commit that is read has a tag already.
pub open spec fn tip_warning(
    commits: Seq<CommitView>,
    tags: Seq<TagView>,
    config: GitConfigView,
) -> Option<MsgView> {
    let read = limited(commits, config.limit_commits);
    if read.len() == 0 {
        None
    } else {
        match tag_of(kept_tags(tags, config), read[0].id) {
            Some(tag) => Some(MsgView { text: tip_report(tag, read[0].id), level: Level::Warn }),
            None => None,
        }
    }
}

/// The view of an optional message.
pub open spec fn msg_opt_view(o: Option<Msg>) -> Option<MsgView> {
    match o {
        Some(m) => Some(m@),
        None => None,
    }
}

/// The releases, each with the place of the one before it.
pub open spec fn linked(releases: Seq<ReleaseView>) -> Seq<ReleaseView> {
    Seq::new(
        releases.len(),
        |i: int|
            ReleaseView {
                previous: if i == 0 {
                    None
                } else {
                    Some(i - 1)
                },
                ..releases[i]
            },
    )
}

/// The release chain of a history. `commits` has the newest commit first,
/// `tags` the oldest tag first. The chain is a list with the oldest release
/// first and the open release last; each release but the first names the
/// one before it as its previous.
pub open spec fn assembled(
    commits: Seq<CommitView>,
    tags: Seq<TagView>,
    current: Seq<char>,
    config: GitConfigView,
) -> Seq<ReleaseView> {
    let read = limited(commits, config.limit_commits);
    let boundaries = with_tip(kept_tags(tags, config), read, current);
    let history = read.reverse();
    let base = match earlier(history, boundaries) {
        Some(release) => seq![release],
        None => Seq::<ReleaseView>::empty(),
    };
    linked(base + walk(history, boundaries))
}

/// Whether the pattern, where there is one, is a regular expression.
fn pattern_ok(pattern: &Option<String>) -> (b: bool)
    ensures
        b == match opt_view(*pattern) {
            Some(p) => regex_compiles(p),
            None => true,
        },
{
    match pattern {
        Some(p) => is_valid(p.as_str()),
        None => true,
    }
}

impl GitConfig {
    /// Whether each pattern, where given, is a regular expression.
    pub fn patterns_valid(&self) -> (b: bool)
        ensures
            b == self@.patterns_valid(),
    {
        pattern_ok(&self.tag_pattern) && pattern_ok(&self.skip_tags) && pattern_ok(
            &self.ignore_tags,
        )
    }

    /// Whether a tag of this name stays in the tag list.
    pub fn keeps(&self, name: &str) -> (b: bool)
        ensures
            b == self@.keeps(name@),
    {
        let counted = match &self.tag_pattern {
            Some(p) => is_match(p.as_str(), name) == Some(true),
            None => true,
        };
        if !counted {
            return false;
        }
        let skipped = match &self.skip_tags {
            Some(p) => is_match(p.as_str(), name) == Some(true),
            None => false,
        };
        if skipped {
            return true;
        }
        let ignored = match &self.ignore_tags {
            Some(p) => !is_blank(p.as_str()) && is_match(p.as_str(), name) == Some(true),
            None => false,
        };
        !ignored
    }

    /// The tags that stay, in their order, or the failure where a pattern is
    /// not a regular expression. Of a list with one tag for each commit,
    /// such a list stays.
    pub fn filter_tags(&self, tags: &Vec<Tag>) -> (r: Result<Vec<Tag>, Failure>)
        ensures
            match r {
                Ok(kept) => self@.patterns_valid() && tag_views(kept@) == kept_tags(
                    tag_views(tags@),
                    self@,
                ) && (one_tag_each(tag_views(tags@)) ==> one_tag_each(tag_views(kept@))),
                Err(failure) => failure == Failure::InvalidPattern && !self@.patterns_valid(),
            },
    {
        proof {
            if one_tag_each(tag_views(tags@)) {
                lemma_boundaries_one_tag_each(
                    tag_views(tags@),
                    Seq::<CommitView>::empty(),
                    Seq::<char>::empty(),
                    self@,
                );
            }
        }
        if !self.patterns_valid() {
            return Err(Failure::InvalidPattern);
        }
        let mut kept: Vec<Tag> = Vec::new();
        let mut i: usize = 0;
        assert(tag_views(tags@).subrange(0, 0) =~= Seq::<TagView>::empty());
        assert(tag_views(kept@) =~= Seq::<TagView>::empty());
        while i < tags.len()
            invariant
                i <= tags.len(),
                tag_views(kept@) == kept_tags(tag_views(tags@).subrange(0, i as int), self@),
            decreases tags.len() - i,
        {
            let ghost seen = tag_views(tags@).subrange(0, i + 1);
            assert(seen.drop_last() =~= tag_views(tags@).subrange(0, i as int));
            assert(seen.last() == tags@[i as int]@);
            let ghost before = tag_views(kept@);
            if self.keeps(tags[i].name.as_str()) {
                kept.push(tags[i].clone());
                assert(tag_views(kept@) =~= before.push(tags@[i as int]@));
            }
            i = i + 1;
        }
        assert(tag_views(tags@).subrange(0, i as int) =~= tag_views(tags@));
        Ok(kept)
    }
}

/// The place of the first tag on the commit with this id.
pub fn find_tag(tags: &Vec<Tag>, id: &String) -> (r: Option<usize>)
    ensures
        match r {
            Some(i) => tag_index(tag_views(tags@), id@) == Some(i as int) && i < tags.len(),
            None => tag_index(tag_views(tags@), id@).is_none(),
        },
{
    let mut found: Option<usize> = None;
    let mut i: usize = 0;
    assert(tag_views(tags@).subrange(0, 0) =~= Seq::<TagView>::empty());
    while i < tags.len()
        invariant
            i <= tags.len(),
            match found {
                Some(k) => tag_index(tag_views(tags@).subrange(0, i as int), id@) == Some(k as int)
                    && k < i,
                None => tag_index(tag_views(tags@).subrange(0, i as int), id@).is_none(),
            },
        decreases tags.len() - i,
    {
        let ghost seen = tag_views(tags@).subrange(0, i + 1);
        assert(seen.drop_last() =~= tag_views(tags@).subrange(0, i as int));
        assert(seen.last() == tags@[i as int]@);
        if found.is_none() && tags[i].commit_id == *id {
            found = Some(i);
        }
        i = i + 1;
    }
    assert(tag_views(tags@).subrange(0, i as int) =~= tag_views(tags@));
    found
}

/// A commit that has no tag in a list is the commit of none of its tags.
proof fn lemma_untagged(tags: Seq<TagView>, id: Seq<char>)
    requires
        tag_index(tags, id).is_none(),
    ensures
        forall|i: int| 0 <= i < tags.len() ==> (#[trigger] tags[i]).commit_id != id,
    decreases tags.len(),
{
    if tags.len() > 0 {
        lemma_untagged(tags.drop_last(), id);
        assert forall|i: int| 0 <= i < tags.len() implies (#[trigger] tags[i]).commit_id != id by {
            if i < tags.len() - 1 {
                assert(tags[i] == tags.drop_last()[i]);
            }
        }
    }
}

/// A commit that has a tag in the front part of a list has one in the
/// list.
proof fn lemma_tag_index_stays(tags: Seq<TagView>, id: Seq<char>, k: int)
    requires
        0 <= k <= tags.len(),
        tag_index(tags.subrange(0, k), id).is_some(),
    ensures
        tag_index(tags, id).is_some(),
    decreases tags.len() - k,
{
    if k == tags.len() {
        assert(tags.subrange(0, k) =~= tags);
    } else {
        assert(tags.subrange(0, k + 1).drop_last() =~= tags.subrange(0, k));
        lemma_tag_index_stays(tags, id, k + 1);
    }
}

/// The front part of a list with one tag for each commit is such a list.
proof fn lemma_one_tag_each_front(tags: Seq<TagView>, k: int)
    requires
        0 <= k <= tags.len(),
        one_tag_each(tags),
    ensures
        one_tag_each(tags.subrange(0, k)),
    decreases tags.len(),
{
    if k == tags.len() {
        assert(tags.subrange(0, k) =~= tags);
    } else {
        lemma_one_tag_each_front(tags.drop_last(), k);
        assert(tags.drop_last().subrange(0, k) =~= tags.subrange(0, k));
    }
}

/// In a list with one tag for each commit, two tags at different places are
/// on different commits, and the tag of a commit is the one tag on it.
pub proof fn lemma_one_tag_each(tags: Seq<TagView>)
    requires
        one_tag_each(tags),
    ensures
        forall|i: int, j: int|
            0 <= i < j < tags.len() ==> (#[trigger] tags[i]).commit_id != (
            #[trigger] tags[j]).commit_id,
        forall|i: int|
            0 <= i < tags.len() ==> tag_index(tags, (#[trigger] tags[i]).commit_id) == Some(i),
    decreases tags.len(),
{
    if tags.len() > 0 {
        let init = tags.drop_last();
        lemma_one_tag_each(init);
        lemma_untagged(init, tags.last().commit_id);
        assert forall|i: int, j: int| 0 <= i < j < tags.len() implies (#[trigger] tags[i]).commit_id
            != (#[trigger] tags[j]).commit_id by {
            assert(tags[i] == init[i]);
            if j < tags.len() - 1 {
                assert(tags[j] == init[j]);
            }
        }
        assert forall|i: int| 0 <= i < tags.len() implies tag_index(
            tags,
            (#[trigger] tags[i]).commit_id,
        ) == Some(i) by {
            if i < tags.len() - 1 {
                assert(tags[i] == init[i]);
            }
        }
    }
}

/// A commit without a tag in a list has none among the tags that stay.
proof fn lemma_kept_untagged(tags: Seq<TagView>, config: GitConfigView, id: Seq<char>)
    requires
        tag_index(tags, id).is_none(),
    ensures
        tag_index(kept_tags(tags, config), id).is_none(),
    decreases tags.len(),
{
    if tags.len() > 0 {
        lemma_kept_untagged(tags.drop_last(), config, id);
        if config.keeps(tags.last().name) {
            assert(kept_tags(tags, config).drop_last() =~= kept_tags(tags.drop_last(), config));
        }
    }
}

/// The tags that stay of a list with one tag for each commit are such a
/// list, and so are they with the version in flight on the newest commit.
pub proof fn lemma_boundaries_one_tag_each(
    tags: Seq<TagView>,
    commits: Seq<CommitView>,
    current: Seq<char>,
    config: GitConfigView,
)
    requires
        one_tag_each(tags),
    ensures
        one_tag_each(kept_tags(tags, config)),
        one_tag_each(with_tip(kept_tags(tags, config), commits, current)),
    decreases tags.len(),
{
    if tags.len() > 0 {
        lemma_boundaries_one_tag_each(tags.drop_last(), commits, current, config);
        if config.keeps(tags.last().name) {
            lemma_kept_untagged(tags.drop_last(), config, tags.last().commit_id);
            assert(kept_tags(tags, config).drop_last() =~= kept_tags(tags.drop_last(), config));
        }
    }
    let kept = kept_tags(tags, config);
    assert(one_tag_each(kept));
    if commits.len() > 0 && tag_index(kept, commits[0].id).is_none() {
        let tipped = with_tip(kept, commits, current);
        assert(tipped.drop_last() =~= kept);
        assert(tipped.last().commit_id == commits[0].id);
    }
}

/// Whether no commit has two tags in the list.
pub fn has_one_tag_each(tags: &Vec<Tag>) -> (b: bool)
    ensures
        b == one_tag_each(tag_views(tags@)),
{
    let ghost all = tag_views(tags@);
    let mut i: usize = 0;
    assert(all.subrange(0, 0) =~= Seq::<TagView>::empty());
    while i < tags.len()
        invariant
            i <= tags.len(),
            all == tag_views(tags@),
            one_tag_each(all.subrange(0, i as int)),
        decreases tags.len() - i,
    {
        let ghost id = tags@[i as int]@.commit_id;
        let ghost front = all.subrange(0, i as int);
        let mut j: usize = 0;
        assert(front.subrange(0, 0) =~= Seq::<TagView>::empty());
        while j < i
            invariant
                j <= i,
                i < tags.len(),
                all == tag_views(tags@),
                front == all.subrange(0, i as int),
                id == tags@[i as int]@.commit_id,
                tag_index(front.subrange(0, j as int), id).is_none(),
            decreases i - j,
        {
            assert(front.subrange(0, j + 1).drop_last() =~= front.subrange(0, j as int));
            assert(front.subrange(0, j + 1).last() == tags@[j as int]@);
            if tags[j].commit_id == tags[i].commit_id {
                proof {
                    lemma_tag_index_stays(front, id, j + 1);
                    assert(all.subrange(0, i + 1).drop_last() =~= front);
                    assert(all.subrange(0, i + 1).last() == tags@[i as int]@);
                    if one_tag_each(all) {
                        lemma_one_tag_each_front(all, i + 1);
                    }
                }
                return false;
            }
            j = j + 1;
        }
        proof {
            assert(front.subrange(0, i as int) =~= front);
            assert(all.subrange(0, i + 1).drop_last() =~= front);
            assert(all.subrange(0, i + 1).last() == tags@[i as int]@);
        }
        i = i + 1;
    }
    assert(all.subrange(0, i as int) =~= all);
    true
}

/// The place of the first tag of this name.
pub fn find_name(tags: &Vec<Tag>, name: &String) -> (r: Option<usize>)
    ensures
        match r {
            Some(i) => name_index(tag_views(tags@), name@) == Some(i as int) && i < tags.len(),
            None => name_index(tag_views(tags@), name@).is_none(),
        },
{
    let mut found: Option<usize> = None;
    let mut i: usize = 0;
    assert(tag_views(tags@).subrange(0, 0) =~= Seq::<TagView>::empty());
    while i < tags.len()
        invariant
            i <= tags.len(),
            match found {
                Some(k) => name_index(tag_views(tags@).subrange(0, i as int), name@) == Some(
                    k as int,
                ) && k < i,
                None => name_index(tag_views(tags@).subrange(0, i as int), name@).is_none(),
            },
        decreases tags.len() - i,
    {
        let ghost seen = tag_views(tags@).subrange(0, i + 1);
        assert(seen.drop_last() =~= tag_views(tags@).subrange(0, i as int));
        assert(seen.last() == tags@[i as int]@);
        if found.is_none() && tags[i].name == *name {
            found = Some(i);
        }
        i = i + 1;
    }
    assert(tag_views(tags@).subrange(0, i as int) =~= tag_views(tags@));
    found
}

/// Once a part of the history has a boundary, it is the boundary of the
/// whole history.
proof fn lemma_first_boundary_stays(history: Seq<CommitView>, tags: Seq<TagView>, k: int)
    requires
        0 <= k <= history.len(),
        first_boundary(history.subrange(0, k), tags).is_some(),
    ensures
        first_boundary(history, tags) == first_boundary(history.subrange(0, k), tags),
    decreases history.len() - k,
{
    if k == history.len() {
        assert(history.subrange(0, k) =~= history);
    } else {
        assert(history.subrange(0, k + 1).drop_last() =~= history.subrange(0, k));
        lemma_first_boundary_stays(history, tags, k + 1);
    }
}

/// The view of an optional release.
pub open spec fn release_opt_view(o: Option<Release>) -> Option<ReleaseView> {
    match o {
        Some(r) => Some(r@),
        None => None,
    }
}

/// The release that comes before the oldest release of the walk, where
/// there is one. `commits` has the newest commit first.
pub fn earlier_release(commits: &Vec<Commit>, tags: &Vec<Tag>) -> (r: Option<Release>)
    ensures
        release_opt_view(r) == earlier(commit_views(commits@).reverse(), tag_views(tags@)),
{
    let ghost history = commit_views(commits@).reverse();
    let mut boundary: Option<usize> = None;
    let mut i: usize = commits.len();
    assert(history.subrange(0, 0) =~= Seq::<CommitView>::empty());
    while i > 0 && boundary.is_none()
        invariant
            i <= commits.len(),
            history == commit_views(commits@).reverse(),
            history.len() == commits.len(),
            match boundary {
                Some(t) => t < tags.len() && first_boundary(
                    history.subrange(0, commits.len() - i),
                    tag_views(tags@),
                ) == Some(tags@[t as int]@.name),
                None => first_boundary(
                    history.subrange(0, commits.len() - i),
                    tag_views(tags@),
                ).is_none(),
            },
        decreases i, boundary.is_none() as int,
    {
        let ghost k = commits.len() - i;
        let ghost seen = history.subrange(0, k + 1);
        assert(seen.drop_last() =~= history.subrange(0, k));
        assert(seen.last() == commits@[i - 1]@);
        i = i - 1;
        boundary = find_tag(tags, &commits[i].id);
    }
    proof {
        if boundary.is_some() {
            lemma_first_boundary_stays(history, tag_views(tags@), commits.len() - i);
        } else {
            assert(history.subrange(0, commits.len() as int) =~= history);
        }
    }
    let before: Option<usize> = match boundary {
        Some(t) => match find_name(tags, &tags[t].name) {
            Some(n) => if n > 0 {
                Some(n - 1)
            } else {
                None
            },
            None => None,
        },
        None => if tags.len() > 0 {
            Some(0)
        } else {
            None
        },
    };
    match before {
        Some(b) => {
            let release = Release {
                version: Some(tags[b].name.clone()),
                commit_id: Some(tags[b].commit_id.clone()),
                timestamp: 0,
                commits: Vec::new(),
                previous: None,
            };
            assert(release@.commits =~= Seq::<CommitView>::empty());
            assert(release@ == carrying(tag_views(tags@)[b as int]));
            Some(release)
        },
        None => None,
    }
}

/// A walk gives at least the open release.
proof fn lemma_walk_nonempty(history: Seq<CommitView>, tags: Seq<TagView>)
    ensures
        walk(history, tags).len() > 0,
    decreases history.len(),
{
    if history.len() > 0 {
        lemma_walk_nonempty(history.drop_last(), tags);
    }
}

/// The place of the release before the one that is added next.
fn place_before(releases: &Vec<Release>) -> (p: Option<usize>)
    ensures
        p == if releases.len() == 0 {
            None
        } else {
            Some((releases.len() - 1) as usize)
        },
{
    if releases.len() > 0 {
        Some(releases.len() - 1)
    } else {
        None
    }
}

/// Cuts the history into releases and puts them behind `first`, where there
/// is one. `commits` has the newest commit first.
fn walk_history(commits: Vec<Commit>, tags: &Vec<Tag>, first: Option<Release>) -> (r: Vec<Release>)
    requires
        match first {
            Some(release) => release@.previous.is_none(),
            None => true,
        },
    ensures
        release_views(r@) == linked(
            (match first {
                Some(release) => seq![release@],
                None => Seq::<ReleaseView>::empty(),
            }) + walk(commit_views(commits@).reverse(), tag_views(tags@)),
        ),
{
    let mut commits = commits;
    let ghost all = commit_views(commits@);
    let ghost history = all.reverse();
    let ghost marks = tag_views(tags@);
    let mut releases: Vec<Release> = Vec::new();
    match first {
        Some(release) => {
            releases.push(release);
        },
        None => {},
    }
    let ghost base = release_views(releases@);
    let mut bucket: Vec<Commit> = Vec::new();
    proof {
        assert(history.subrange(0, 0) =~= Seq::<CommitView>::empty());
        assert(walk(history.subrange(0, 0), marks).drop_last() =~= Seq::<ReleaseView>::empty());
        assert(base + Seq::<ReleaseView>::empty() =~= base);
        assert(linked(base) =~= base);
        assert(commit_views(bucket@) =~= Seq::<CommitView>::empty());
        assert(commit_views(commits@) =~= all.subrange(0, commits.len() as int));
    }
    while commits.len() > 0
        invariant
            commits.len() <= all.len(),
            commit_views(commits@) == all.subrange(0, commits.len() as int),
            history == all.reverse(),
            history.len() == all.len(),
            marks == tag_views(tags@),
            release_views(releases@) == linked(
                base + walk(history.subrange(0, all.len() - commits.len()), marks).drop_last(),
            ),
            walk(history.subrange(0, all.len() - commits.len()), marks).last() == (ReleaseView {
                commits: commit_views(bucket@),
                ..open_release()
            }),
        decreases commits.len(),
    {
        let ghost k = all.len() - commits.len();
        let ghost before = walk(history.subrange(0, k), marks);
        let ghost old_bucket = commit_views(bucket@);
        let ghost old_releases = release_views(releases@);
        let ghost old_commits = commits@;
        proof {
            lemma_walk_nonempty(history.subrange(0, k), marks);
        }
        let popped = commits.pop();
        assert(popped.is_some());
        let commit = popped.unwrap();
        proof {
            assert(commit_views(old_commits)[old_commits.len() - 1] == commit@);
            assert(all.subrange(0, old_commits.len() as int)[old_commits.len() - 1]
                == all[old_commits.len() - 1]);
            assert(commit@ == all[old_commits.len() - 1]);
            assert(commit@ == history[k]);
            assert(history.subrange(0, k + 1).drop_last() =~= history.subrange(0, k));
            assert(history.subrange(0, k + 1).last() == commit@);
            assert(commit_views(commits@) =~= all.subrange(0, commits.len() as int));
        }
        match find_tag(tags, &commit.id) {
            Some(t) => {
                let version = tags[t].name.clone();
                let id = commit.id.clone();
                let timestamp = commit.timestamp;
                let ghost view = commit@;
                bucket.push(commit);
                assert(commit_views(bucket@) =~= old_bucket.push(view));
                let previous = place_before(&releases);
                let sealed = Release {
                    version: Some(version),
                    commit_id: Some(id),
                    timestamp,
                    commits: bucket,
                    previous,
                };
                let ghost sealed_view = sealed@;
                releases.push(sealed);
                bucket = Vec::new();
                proof {
                    let after = walk(history.subrange(0, k + 1), marks);
                    assert(after.drop_last() =~= before.drop_last().push(after[after.len() - 2]));
                    assert(commit_views(bucket@) =~= Seq::<CommitView>::empty());
                    assert(release_views(releases@) =~= old_releases.push(sealed_view));
                    assert(release_views(releases@) =~= linked(base + after.drop_last()));
                }
            },
            None => {
                let ghost view = commit@;
                bucket.push(commit);
                proof {
                    let after = walk(history.subrange(0, k + 1), marks);
                    assert(commit_views(bucket@) =~= old_bucket.push(view));
                    assert(after.drop_last() =~= before.drop_last());
                }
            },
        }
    }
    proof {
        assert(history.subrange(0, all.len() as int) =~= history);
        lemma_walk_nonempty(history, marks);
    }
    let previous = place_before(&releases);
    let ghost old_releases = release_views(releases@);
    let open = Release { version: None, commit_id: None, timestamp: 0, commits: bucket, previous };
    let ghost open_view = open@;
    releases.push(open);
    proof {
        let whole = walk(history, marks);
        assert(release_views(releases@) =~= old_releases.push(open_view));
        assert(whole =~= whole.drop_last().push(whole.last()));
        assert(release_views(releases@) =~= linked(base + whole));
    }
    releases
}

/// What builds the changelog of a project: the project's configuration,
/// for the version in flight, and the changelog's own.
#[derive(Debug, PartialEq, Eq)]
pub struct Changelog {
    pub project_config: ProjectConfig,
    pub builtin_config: GitConfig,
}

impl Changelog {
    /// A changelog builder for the project, with the given configuration.
    pub fn new(project_config: &ProjectConfig, builtin_config: GitConfig) -> (c: Self)
        ensures
            c.project_config@ == project_config@,
            c.builtin_config == builtin_config,
    {
        Changelog { project_config: project_config.clone(), builtin_config }
    }

    /// The warning that the newest commit that is read has a tag already,
    /// so that the version in flight is not put on it; `None` where it has
    /// none, or where no commit is read. Fails where a pattern of the
    /// configuration is not a regular expression, and only then.
    pub fn tip_notice(&self, commits: &Vec<Commit>, tags: &Vec<Tag>) -> (r: Result<
        Option<Msg>,
        Failure,
    >)
        requires
            one_tag_each(tag_views(tags@)),
        ensures
            match r {
                Ok(notice) => self.builtin_config@.patterns_valid() && msg_opt_view(notice)
                    == tip_warning(commit_views(commits@), tag_views(tags@), self.builtin_config@),
                Err(failure) => failure == Failure::InvalidPattern
                    && !self.builtin_config@.patterns_valid(),
            },
    {
        let boundaries = match self.builtin_config.filter_tags(tags) {
            Ok(kept) => kept,
            Err(failure) => {
                return Err(failure);
            },
        };
        let none_read = match self.builtin_config.limit_commits {
            Some(limit) => limit == 0,
            None => false,
        };
        if commits.len() == 0 || none_read {
            return Ok(None);
        }
        assert(limited(commit_views(commits@), self.builtin_config@.limit_commits)[0]
            == commits@[0]@);
        match find_tag(&boundaries, &commits[0].id) {
            Some(t) => {
                proof {
                    reveal_strlit("There is already a tag (");
                    reveal_strlit(") for ");
                }
                let mut text = String::from_str("There is already a tag (");
                text.append(boundaries[t].name.as_str());
                text.append(") for ");
                text.append(commits[0].id.as_str());
                assert(text@ =~= tip_report(boundaries@[t as int]@.name, commits@[0]@.id));
                Ok(Some(Msg::new(text.as_str()).warn()))
            },
            None => Ok(None),
        }
    }

    /// Assembles the release chain of a history. `commits` is the history
    /// with the newest commit first, `tags` the version tags with the oldest
    /// first, as a map: no commit has two tags in it. Fails where a pattern of the configuration is not a regular
    /// expression, and only then.
    pub fn process_repository(&self, commits: Vec<Commit>, tags: Vec<Tag>) -> (r: Result<
        Vec<Release>,
        Failure,
    >)
        requires
            one_tag_each(tag_views(tags@)),
        ensures
            match r {
                Ok(releases) => self.builtin_config@.patterns_valid() && release_views(releases@)
                    == assembled(
                    commit_views(commits@),
                    tag_views(tags@),
                    self.project_config@.current,
                    self.builtin_config@,
                ),
                Err(failure) => failure == Failure::InvalidPattern
                    && !self.builtin_config@.patterns_valid(),
            },
    {
        let mut boundaries = match self.builtin_config.filter_tags(&tags) {
            Ok(kept) => kept,
            Err(failure) => {
                return Err(failure);
            },
        };
        let mut commits = commits;
        let ghost given = commit_views(commits@);
        match self.builtin_config.limit_commits {
            Some(limit) => {
                commits.truncate(limit);
            },
            None => {},
        }
        assert(commit_views(commits@) =~= limited(given, self.builtin_config@.limit_commits));
        if commits.len() > 0 {
            if find_tag(&boundaries, &commits[0].id).is_none() {
                let ghost before = tag_views(boundaries@);
                let tip = Tag {
                    commit_id: commits[0].id.clone(),
                    name: self.project_config.current.clone(),
                };
                let ghost tip_view = tip@;
                boundaries.push(tip);
                assert(tag_views(boundaries@) =~= before.push(tip_view));
            }
        }
        let first = earlier_release(&commits, &boundaries);
        Ok(walk_history(commits, &boundaries, first))
    }
}

/// What the history of one repository came to: its release chain, or for a
/// repository that is listed by version only, that version.
#[derive(Debug, PartialEq, Eq)]
pub enum ProcessOutput {
    Releases(Vec<Release>),
    Version(String),
}

/// What a history came to, as the contracts see it.
pub enum ProcessOutputView {
    Releases(Seq<ReleaseView>),
    Version(Seq<char>),
}

impl View for ProcessOutput {
    type V = ProcessOutputView;

    open spec fn view(&self) -> ProcessOutputView {
        match self {
            ProcessOutput::Releases(releases) => ProcessOutputView::Releases(
                release_views(releases@),
            ),
            ProcessOutput::Version(version) => ProcessOutputView::Version(version@),
        }
    }
}

/// The views of a list of outputs.
pub open spec fn output_views(v: Seq<ProcessOutput>) -> Seq<ProcessOutputView> {
    Seq::new(v.len(), |i: int| v[i]@)
}

/// What goes into the changelog: the release chains, one for each
/// repository, or a plain list of versions, one on each line.
#[derive(Debug, PartialEq, Eq)]
pub enum ChangelogContent {
    Releases(Vec<Vec<Release>>),
    Versions(String),
}

/// What goes into the changelog, as the contracts see it.
pub enum ChangelogContentView {
    Releases(Seq<Seq<ReleaseView>>),
    Versions(Seq<char>),
}

/// The views of a list of release chains.
pub open spec fn chain_views(v: Seq<Vec<Release>>) -> Seq<Seq<ReleaseView>> {
    Seq::new(v.len(), |i: int| release_views(v[i]@))
}

impl View for ChangelogContent {
    type V = ChangelogContentView;

    open spec fn view(&self) -> ChangelogContentView {
        match self {
            ChangelogContent::Releases(chains) => ChangelogContentView::Releases(
                chain_views(chains@),
            ),
            ChangelogContent::Versions(text) => ChangelogContentView::Versions(text@),
        }
    }
}

/// The versions among the outputs, in order.
pub open spec fn versions_of(outputs: Seq<ProcessOutputView>) -> Seq<Seq<char>>
    decreases outputs.len(),
{
    if outputs.len() == 0 {
        Seq::<Seq<char>>::empty()
    } else {
        match outputs.last() {
            ProcessOutputView::Version(version) => versions_of(outputs.drop_last()).push(version),
            ProcessOutputView::Releases(_) => versions_of(outputs.drop_last()),
        }
    }
}

/// The release chains among the outputs, in order.
pub open spec fn chains_of(outputs: Seq<ProcessOutputView>) -> Seq<Seq<ReleaseView>>
    decreases outputs.len(),
{
    if outputs.len() == 0 {
        Seq::<Seq<ReleaseView>>::empty()
    } else {
        match outputs.last() {
            ProcessOutputView::Releases(releases) => chains_of(outputs.drop_last()).push(
                releases,
            ),
            ProcessOutputView::Version(_) => chains_of(outputs.drop_last()),
        }
    }
}

/// What goes into the changelog for the given outputs: the list of
/// versions where any output is a version, else the release chains.
pub open spec fn content_of(outputs: Seq<ProcessOutputView>) -> ChangelogContentView {
    if versions_of(outputs).len() > 0 {
        ChangelogContentView::Versions(joined(versions_of(outputs), '\n'))
    } else {
        ChangelogContentView::Releases(chains_of(outputs))
    }
}

impl Changelog {
    /// The path that the changelog is written to: the one that the
    /// project's configuration names, else the usual one.
    pub fn output_file_name(&self) -> (r: String)
        ensures
            r@ == match self.project_config@.changelog {
                Some(path) => path,
                None => DEFAULT_OUTPUT@,
            },
    {
        match &self.project_config.changelog {
            Some(path) => path.clone(),
            None => String::from_str(DEFAULT_OUTPUT),
        }
    }

    /// Puts together what goes into the changelog from what the
    /// repositories came to.
    pub fn build(&self, outputs: Vec<ProcessOutput>) -> (r: ChangelogContent)
        ensures
            r@ == content_of(output_views(outputs@)),
    {
        let mut chains: Vec<Vec<Release>> = Vec::new();
        let mut versions: Vec<String> = Vec::new();
        let ghost given = output_views(outputs@);
        assert(given.subrange(0, 0) =~= Seq::<ProcessOutputView>::empty());
        assert(chain_views(chains@) =~= Seq::<Seq<ReleaseView>>::empty());
        assert(views(versions@) =~= Seq::<Seq<char>>::empty());
        for output in it: outputs
            invariant
                given == output_views(outputs@),
                it.seq() == outputs@,
                chain_views(chains@) == chains_of(given.subrange(0, it.index() as int)),
                views(versions@) == versions_of(given.subrange(0, it.index() as int)),
        {
            let ghost seen = given.subrange(0, it.index() + 1);
            assert(seen.drop_last() =~= given.subrange(0, it.index() as int));
            assert(seen.last() == output@);
            let ghost old_chains = chain_views(chains@);
            let ghost old_versions = views(versions@);
            match output {
                ProcessOutput::Releases(releases) => {
                    let ghost chain = release_views(releases@);
                    chains.push(releases);
                    assert(chain_views(chains@) =~= old_chains.push(chain));
                },
                ProcessOutput::Version(version) => {
                    let ghost text = version@;
                    versions.push(version);
                    assert(views(versions@) =~= old_versions.push(text));
                },
            }
        }
        assert(given.subrange(0, given.len() as int) =~= given);
        if versions.len() > 0 {
            ChangelogContent::Versions(join_strings(&versions, '\n'))
        } else {
            ChangelogContent::Releases(chains)
        }
    }
}

/// The commits of all the releases, in the order of the list.
pub open spec fn all_commits(releases: Seq<ReleaseView>) -> Seq<CommitView>
    decreases releases.len(),
{
    if releases.len() == 0 {
        Seq::<CommitView>::empty()
    } else {
        all_commits(releases.drop_last()) + releases.last().commits
    }
}

/// How many commits the releases hold together.
pub open spec fn commit_count(releases: Seq<ReleaseView>) -> nat
    decreases releases.len(),
{
    if releases.len() == 0 {
        0
    } else {
        commit_count(releases.drop_last()) + releases.last().commits.len()
    }
}

/// A release that was sealed at a boundary commit: it has a version and
/// holds at least that commit.
pub open spec fn is_sealed(release: ReleaseView) -> bool {
    release.version.is_some() && release.commits.len() > 0
}

/// A history in which each commit is newer than the one before it.
pub open spec fn oldest_first(history: Seq<CommitView>) -> bool {
    forall|i: int, j: int|
        0 <= i < j < history.len() ==> history[i].timestamp < history[j].timestamp
}

/// A history in which each commit is older than the one before it.
pub open spec fn newest_first(commits: Seq<CommitView>) -> bool {
    forall|i: int, j: int|
        0 <= i < j < commits.len() ==> commits[i].timestamp > commits[j].timestamp
}

/// The releases hold as many commits as their commits, put together, are
/// long.
proof fn lemma_count_is_length(releases: Seq<ReleaseView>)
    ensures
        commit_count(releases) == all_commits(releases).len(),
    decreases releases.len(),
{
    if releases.len() > 0 {
        lemma_count_is_length(releases.drop_last());
    }
}

/// The commits of two lists of releases, one after the other.
proof fn lemma_all_commits_concat(a: Seq<ReleaseView>, b: Seq<ReleaseView>)
    ensures
        all_commits(a + b) == all_commits(a) + all_commits(b),
    decreases b.len(),
{
    if b.len() == 0 {
        assert(a + b =~= a);
        assert(all_commits(a) + all_commits(b) =~= all_commits(a));
    } else {
        lemma_all_commits_concat(a, b.drop_last());
        assert((a + b).drop_last() =~= a + b.drop_last());
        assert((a + b).last() == b.last());
        assert(all_commits(a + b) =~= all_commits(a) + all_commits(b));
    }
}

/// Linking the releases leaves their commits as they are.
proof fn lemma_all_commits_linked(releases: Seq<ReleaseView>)
    ensures
        all_commits(linked(releases)) == all_commits(releases),
    decreases releases.len(),
{
    if releases.len() > 0 {
        lemma_all_commits_linked(releases.drop_last());
        assert(linked(releases).drop_last() =~= linked(releases.drop_last()));
    }
}

/// The releases of a walk hold the history: each commit once, in order.
pub proof fn lemma_walk_covers(history: Seq<CommitView>, tags: Seq<TagView>)
    ensures
        all_commits(walk(history, tags)) == history,
    decreases history.len(),
{
    let w = walk(history, tags);
    if history.len() == 0 {
        assert(w.drop_last() =~= Seq::<ReleaseView>::empty());
        assert(all_commits(w.drop_last()) =~= Seq::<CommitView>::empty());
        assert(all_commits(w) =~= history);
    } else {
        let before = walk(history.drop_last(), tags);
        lemma_walk_covers(history.drop_last(), tags);
        lemma_walk_nonempty(history.drop_last(), tags);
        let commit = history.last();
        let filled = before.last().commits.push(commit);
        assert(all_commits(before) == all_commits(before.drop_last()) + before.last().commits);
        assert(history =~= history.drop_last().push(commit));
        match tag_of(tags, commit.id) {
            Some(name) => {
                let sealed = w[w.len() - 2];
                assert(w.drop_last() =~= before.drop_last().push(sealed));
                assert(w.drop_last().drop_last() =~= before.drop_last());
                assert(w.drop_last().last() == sealed);
                assert(all_commits(w.drop_last()) == all_commits(before.drop_last()) + filled);
                assert(w.last().commits =~= Seq::<CommitView>::empty());
                assert(all_commits(w) == all_commits(w.drop_last()) + w.last().commits);
                assert(all_commits(w) =~= history);
            },
            None => {
                assert(w.drop_last() =~= before.drop_last());
                assert(w.last().commits == filled);
                assert(all_commits(w) == all_commits(w.drop_last()) + w.last().commits);
                assert(all_commits(w) =~= history);
            },
        }
    }
}

/// Every release of a walk but the last is sealed; the last is open.
pub proof fn lemma_walk_shape(history: Seq<CommitView>, tags: Seq<TagView>)
    ensures
        walk(history, tags).len() > 0,
        walk(history, tags).last().version.is_none(),
        walk(history, tags).last().commit_id.is_none(),
        forall|i: int|
            0 <= i < walk(history, tags).len() - 1 ==> is_sealed(#[trigger] walk(history, tags)[i]),
    decreases history.len(),
{
    let w = walk(history, tags);
    if history.len() > 0 {
        let before = walk(history.drop_last(), tags);
        lemma_walk_shape(history.drop_last(), tags);
        assert forall|i: int| 0 <= i < w.len() - 1 implies is_sealed(#[trigger] w[i]) by {
            if i < before.len() - 1 {
                assert(w[i] == before[i]);
            }
        }
    }
}

/// A sealed release of a walk ends at its boundary commit: that commit has
/// a tag, and the release carries the tag's name and the commit's id and
/// time. No other commit of any release has a tag.
pub proof fn lemma_walk_boundaries(history: Seq<CommitView>, tags: Seq<TagView>, i: int)
    requires
        0 <= i < walk(history, tags).len(),
    ensures
        i < walk(history, tags).len() - 1 ==> {
            let release = walk(history, tags)[i];
            &&& release.commits.len() > 0
            &&& release.version == tag_of(tags, release.commits.last().id)
            &&& release.version.is_some()
            &&& release.commit_id == Some(release.commits.last().id)
            &&& release.timestamp == release.commits.last().timestamp
            &&& forall|k: int|
                0 <= k < release.commits.len() - 1 ==> tag_of(
                    tags,
                    (#[trigger] release.commits[k]).id,
                ).is_none()
        },
        i == walk(history, tags).len() - 1 ==> forall|k: int|
            0 <= k < walk(history, tags)[i].commits.len() ==> tag_of(
                tags,
                (#[trigger] walk(history, tags)[i].commits[k]).id,
            ).is_none(),
    decreases history.len(),
{
    let w = walk(history, tags);
    if history.len() > 0 {
        let before = walk(history.drop_last(), tags);
        lemma_walk_nonempty(history.drop_last(), tags);
        let commit = history.last();
        let filled = before.last().commits.push(commit);
        match tag_of(tags, commit.id) {
            Some(name) => {
                if i < w.len() - 2 {
                    lemma_walk_boundaries(history.drop_last(), tags, i);
                    assert(w[i] == before[i]);
                } else if i == w.len() - 2 {
                    lemma_walk_boundaries(history.drop_last(), tags, before.len() - 1);
                    assert(w[i].commits == filled);
                    assert forall|k: int| 0 <= k < filled.len() - 1 implies tag_of(
                        tags,
                        (#[trigger] filled[k]).id,
                    ).is_none() by {
                        assert(filled[k] == before.last().commits[k]);
                    }
                }
            },
            None => {
                if i < w.len() - 1 {
                    lemma_walk_boundaries(history.drop_last(), tags, i);
                    assert(w[i] == before[i]);
                } else {
                    lemma_walk_boundaries(history.drop_last(), tags, before.len() - 1);
                    assert(w[i].commits == filled);
                    assert forall|k: int| 0 <= k < filled.len() implies tag_of(
                        tags,
                        (#[trigger] filled[k]).id,
                    ).is_none() by {
                        if k < filled.len() - 1 {
                            assert(filled[k] == before.last().commits[k]);
                        }
                    }
                }
            },
        }
    }
}

/// In a history in the order of time, the sealed releases of a walk are
/// in the order of their times, and none is later than the last commit.
proof fn lemma_walk_time_ordered(history: Seq<CommitView>, tags: Seq<TagView>)
    requires
        oldest_first(history),
    ensures
        forall|i: int, j: int|
            0 <= i < j < walk(history, tags).len() - 1 ==> walk(history, tags)[i].timestamp < walk(
                history,
                tags,
            )[j].timestamp,
        forall|i: int|
            0 <= i < walk(history, tags).len() - 1 ==> history.len() > 0 && walk(
                history,
                tags,
            )[i].timestamp <= history.last().timestamp,
    decreases history.len(),
{
    let w = walk(history, tags);
    if history.len() > 0 {
        let shorter = history.drop_last();
        let before = walk(shorter, tags);
        assert(oldest_first(shorter)) by {
            assert forall|i: int, j: int| 0 <= i < j < shorter.len() implies shorter[i].timestamp
                < shorter[j].timestamp by {
                assert(shorter[i] == history[i] && shorter[j] == history[j]);
            }
        }
        lemma_walk_time_ordered(shorter, tags);
        lemma_walk_nonempty(shorter, tags);
        assert forall|i: int| 0 <= i < before.len() - 1 implies before[i].timestamp
            < history.last().timestamp by {
            assert(shorter.last() == history[history.len() - 2]);
        }
        assert forall|i: int| 0 <= i < w.len() - 1 implies w[i].timestamp
            <= history.last().timestamp by {
            if i < before.len() - 1 {
                assert(w[i] == before[i]);
            }
        }
        assert forall|i: int, j: int| 0 <= i < j < w.len() - 1 implies w[i].timestamp
            < w[j].timestamp by {
            assert(w[i] == before[i]);
            if j < before.len() - 1 {
                assert(w[j] == before[j]);
            }
        }
    }
}

/// The release chain holds every commit that was read exactly once: its
/// releases' commits, put one after the other from the oldest release on,
/// are the history from the oldest commit on, and their number is the
/// number of commits read.
pub proof fn lemma_chain_covers_history(
    commits: Seq<CommitView>,
    tags: Seq<TagView>,
    current: Seq<char>,
    config: GitConfigView,
)
    ensures
        all_commits(assembled(commits, tags, current, config)) == limited(
            commits,
            config.limit_commits,
        ).reverse(),
        commit_count(assembled(commits, tags, current, config)) == limited(
            commits,
            config.limit_commits,
        ).len(),
{
    let read = limited(commits, config.limit_commits);
    let boundaries = with_tip(kept_tags(tags, config), read, current);
    let history = read.reverse();
    let base = match earlier(history, boundaries) {
        Some(release) => seq![release],
        None => Seq::<ReleaseView>::empty(),
    };
    let w = walk(history, boundaries);
    lemma_walk_covers(history, boundaries);
    lemma_all_commits_linked(base + w);
    lemma_all_commits_concat(base, w);
    assert(all_commits(base) =~= Seq::<CommitView>::empty()) by {
        if base.len() > 0 {
            assert(base.drop_last() =~= Seq::<ReleaseView>::empty());
            assert(all_commits(base.drop_last()) =~= Seq::<CommitView>::empty());
        }
    }
    assert(all_commits(base) + all_commits(w) =~= history);
    lemma_count_is_length(assembled(commits, tags, current, config));
}

/// Where each commit that was read is older than the one read before it,
/// the sealed releases of the chain are in the order of their boundary
/// times: of two of them, the one that stands later in the chain, and so
/// nearer to its head, has the later time.
pub proof fn lemma_chain_time_ordered(
    commits: Seq<CommitView>,
    tags: Seq<TagView>,
    current: Seq<char>,
    config: GitConfigView,
)
    requires
        newest_first(limited(commits, config.limit_commits)),
    ensures
        forall|i: int, j: int|
            0 <= i < j < assembled(commits, tags, current, config).len() && is_sealed(
                assembled(commits, tags, current, config)[i],
            ) && is_sealed(assembled(commits, tags, current, config)[j]) ==> assembled(
                commits,
                tags,
                current,
                config,
            )[i].timestamp < assembled(commits, tags, current, config)[j].timestamp,
{
    let read = limited(commits, config.limit_commits);
    let boundaries = with_tip(kept_tags(tags, config), read, current);
    let history = read.reverse();
    let base = match earlier(history, boundaries) {
        Some(release) => seq![release],
        None => Seq::<ReleaseView>::empty(),
    };
    let w = walk(history, boundaries);
    let chain = assembled(commits, tags, current, config);
    assert(oldest_first(history)) by {
        assert forall|i: int, j: int| 0 <= i < j < history.len() implies history[i].timestamp
            < history[j].timestamp by {
            assert(history[i] == read[read.len() - 1 - i]);
            assert(history[j] == read[read.len() - 1 - j]);
        }
    }
    lemma_walk_shape(history, boundaries);
    lemma_walk_time_ordered(history, boundaries);
    let n = base.len() as int;
    assert(chain.len() == n + w.len());
    assert forall|i: int, j: int|
        0 <= i < j < chain.len() && is_sealed(chain[i]) && is_sealed(chain[j]) implies chain[i].timestamp
        < chain[j].timestamp by {
        assert(chain[i].commits == (base + w)[i].commits);
        assert(chain[j].version == (base + w)[j].version);
        if i < n {
            assert((base + w)[i] == base[i]);
            assert(base[i].commits.len() == 0);
        }
        if j == chain.len() - 1 {
            assert((base + w)[j] == w[j - n]);
        }
        assert((base + w)[i] == w[i - n]);
        assert((base + w)[j] == w[j - n]);
        assert(chain[i].timestamp == w[i - n].timestamp);
        assert(chain[j].timestamp == w[j - n].timestamp);
    }
}

} // verus!
