use rellr::libs::changelog::{
    earlier_release, find_name, find_tag, has_one_tag_each, Changelog, ChangelogContent, Commit, GitConfig,
    ProcessOutput, Release, Tag, DEFAULT_OUTPUT,
};
use rellr::libs::git::BranchType;
use rellr::libs::msg::{Failure, Level, Msg};
use rellr::libs::project_config::ProjectConfig;

fn commit(id: &str, timestamp: i64) -> Commit {
    Commit {
        id: id.to_string(),
        message: format!("work on {}", id),
        author: "Ada".to_string(),
        timestamp,
    }
}

fn tag(commit_id: &str, name: &str) -> Tag {
    Tag { commit_id: commit_id.to_string(), name: name.to_string() }
}

fn plain() -> GitConfig {
    GitConfig { tag_pattern: None, skip_tags: None, ignore_tags: None, limit_commits: None }
}

fn changelog(current: &str, config: GitConfig) -> Changelog {
    let project = ProjectConfig {
        name: "demo".to_string(),
        current: current.to_string(),
        next: None,
        prev: None,
        branch_type: BranchType::Release,
        main_branch: "main".to_string(),
        changelog: None,
        package_managers: None,
    };
    Changelog::new(&project, config)
}

fn sealed(version: &str, commits: Vec<Commit>, previous: Option<usize>) -> Release {
    let boundary = commits.last().unwrap();
    Release {
        version: Some(version.to_string()),
        commit_id: Some(boundary.id.clone()),
        timestamp: boundary.timestamp,
        commits,
        previous,
    }
}

fn open(commits: Vec<Commit>, previous: Option<usize>) -> Release {
    Release { version: None, commit_id: None, timestamp: 0, commits, previous }
}

fn carrying(commit_id: &str, version: &str) -> Release {
    Release {
        version: Some(version.to_string()),
        commit_id: Some(commit_id.to_string()),
        timestamp: 0,
        commits: vec![],
        previous: None,
    }
}

// History A(tag v1) -> B -> C(tag v2) -> D, newest first.
fn history() -> Vec<Commit> {
    vec![commit("D", 40), commit("C", 30), commit("B", 20), commit("A", 10)]
}

#[test]
fn history_with_two_tags_and_an_untagged_tip() {
    let chain = changelog("v2", plain())
        .process_repository(history(), vec![tag("A", "v1"), tag("C", "v2")])
        .unwrap();
    assert_eq!(
        chain,
        vec![
            sealed("v1", vec![commit("A", 10)], None),
            sealed("v2", vec![commit("B", 20), commit("C", 30)], Some(0)),
            sealed("v2", vec![commit("D", 40)], Some(1)),
            open(vec![], Some(2)),
        ]
    );
}

#[test]
fn the_tip_takes_the_version_in_flight() {
    let chain = changelog("1.3.0", plain())
        .process_repository(history(), vec![tag("A", "v1"), tag("C", "v2")])
        .unwrap();
    assert_eq!(chain[2], sealed("1.3.0", vec![commit("D", 40)], Some(1)));
}

#[test]
fn a_tag_on_the_tip_is_not_overwritten() {
    let chain = changelog("1.3.0", plain())
        .process_repository(history(), vec![tag("A", "v1"), tag("D", "v3")])
        .unwrap();
    assert_eq!(
        chain,
        vec![
            sealed("v1", vec![commit("A", 10)], None),
            sealed("v3", vec![commit("B", 20), commit("C", 30), commit("D", 40)], Some(0)),
            open(vec![], Some(1)),
        ]
    );
}

#[test]
fn every_commit_is_in_exactly_one_release() {
    let chain = changelog("v3", plain())
        .process_repository(history(), vec![tag("B", "v1"), tag("C", "v2")])
        .unwrap();
    let total: usize = chain.iter().map(|release| release.commits.len()).sum();
    assert_eq!(total, 4);
    let ids: Vec<String> = chain
        .iter()
        .flat_map(|release| release.commits.iter().map(|commit| commit.id.clone()))
        .collect();
    assert_eq!(ids, vec!["A", "B", "C", "D"]);
}

#[test]
fn sealed_releases_are_in_the_order_of_their_times() {
    let chain = changelog("v3", plain())
        .process_repository(history(), vec![tag("A", "v1"), tag("C", "v2")])
        .unwrap();
    let mut place = Some(chain.len() - 1);
    let mut times = vec![];
    while let Some(at) = place {
        if chain[at].version.is_some() && !chain[at].commits.is_empty() {
            times.push(chain[at].timestamp);
        }
        place = chain[at].previous;
    }
    assert_eq!(times, vec![40, 30, 10]);
}

#[test]
fn each_release_names_the_one_before_it() {
    let chain = changelog("v3", plain())
        .process_repository(history(), vec![tag("A", "v1"), tag("C", "v2")])
        .unwrap();
    for (place, release) in chain.iter().enumerate() {
        assert_eq!(release.previous, place.checked_sub(1));
    }
}

#[test]
fn history_without_commits_and_without_tags() {
    let chain = changelog("1.0.0", plain()).process_repository(vec![], vec![]).unwrap();
    assert_eq!(chain, vec![open(vec![], None)]);
}

#[test]
fn history_without_commits_falls_back_to_the_oldest_tag() {
    let chain = changelog("1.0.0", plain())
        .process_repository(vec![], vec![tag("A", "v1"), tag("C", "v2")])
        .unwrap();
    assert_eq!(chain, vec![carrying("A", "v1"), open(vec![], Some(0))]);
}

#[test]
fn history_without_tags_is_one_release_of_the_version_in_flight() {
    let chain = changelog("0.1.0", plain()).process_repository(history(), vec![]).unwrap();
    assert_eq!(
        chain,
        vec![
            sealed(
                "0.1.0",
                vec![commit("A", 10), commit("B", 20), commit("C", 30), commit("D", 40)],
                None
            ),
            open(vec![], Some(0)),
        ]
    );
}

#[test]
fn limit_keeps_the_newest_commits() {
    let config = GitConfig { tag_pattern: None, skip_tags: None, ignore_tags: None, limit_commits: Some(2) };
    let chain = changelog("v3", config)
        .process_repository(history(), vec![tag("A", "v1"), tag("C", "v2")])
        .unwrap();
    assert_eq!(
        chain,
        vec![
            carrying("A", "v1"),
            sealed("v2", vec![commit("C", 30)], Some(0)),
            sealed("v3", vec![commit("D", 40)], Some(1)),
            open(vec![], Some(2)),
        ]
    );
    let total: usize = chain.iter().map(|release| release.commits.len()).sum();
    assert_eq!(total, 2);
}

#[test]
fn limit_beyond_the_history_keeps_all() {
    let config = GitConfig { tag_pattern: None, skip_tags: None, ignore_tags: None, limit_commits: Some(9) };
    let chain = changelog("v3", config).process_repository(history(), vec![]).unwrap();
    assert_eq!(chain[0].commits.len(), 4);
}

#[test]
fn limit_of_zero_reads_nothing() {
    let config = GitConfig { tag_pattern: None, skip_tags: None, ignore_tags: None, limit_commits: Some(0) };
    let chain =
        changelog("v3", config).process_repository(history(), vec![tag("C", "v2")]).unwrap();
    assert_eq!(chain, vec![carrying("C", "v2"), open(vec![], Some(0))]);
}

#[test]
fn the_release_before_the_first_stands_for_the_tag_listed_before() {
    let config = GitConfig { tag_pattern: None, skip_tags: None, ignore_tags: None, limit_commits: Some(1) };
    let chain = changelog("v9", config)
        .process_repository(history(), vec![tag("A", "v1"), tag("B", "v2"), tag("D", "v3")])
        .unwrap();
    assert_eq!(
        chain,
        vec![
            carrying("B", "v2"),
            sealed("v3", vec![commit("D", 40)], Some(0)),
            open(vec![], Some(1)),
        ]
    );
}

#[test]
fn ignored_tags_end_no_release() {
    let config =
        GitConfig { tag_pattern: None, skip_tags: None, ignore_tags: Some("beta".to_string()), limit_commits: None };
    let chain = changelog("v3", config)
        .process_repository(history(), vec![tag("A", "v1"), tag("B", "v2-beta"), tag("C", "v2")])
        .unwrap();
    assert_eq!(
        chain,
        vec![
            sealed("v1", vec![commit("A", 10)], None),
            sealed("v2", vec![commit("B", 20), commit("C", 30)], Some(0)),
            sealed("v3", vec![commit("D", 40)], Some(1)),
            open(vec![], Some(2)),
        ]
    );
}

#[test]
fn skipped_tags_stay_though_ignored() {
    let config = GitConfig {
        tag_pattern: None,
        skip_tags: Some("v2-".to_string()),
        ignore_tags: Some("beta".to_string()),
        limit_commits: None,
    };
    let chain = changelog("v3", config)
        .process_repository(history(), vec![tag("A", "v1-beta"), tag("B", "v2-beta")])
        .unwrap();
    assert_eq!(
        chain,
        vec![
            sealed("v2-beta", vec![commit("A", 10), commit("B", 20)], None),
            sealed("v3", vec![commit("C", 30), commit("D", 40)], Some(0)),
            open(vec![], Some(1)),
        ]
    );
}

#[test]
fn a_blank_ignore_pattern_ignores_nothing() {
    let config =
        GitConfig { tag_pattern: None, skip_tags: None, ignore_tags: Some("  ".to_string()), limit_commits: None };
    let kept = config.filter_tags(&vec![tag("A", "v1"), tag("B", "v 2")]).unwrap();
    assert_eq!(kept, vec![tag("A", "v1"), tag("B", "v 2")]);
    let config =
        GitConfig { tag_pattern: None, skip_tags: None, ignore_tags: Some("".to_string()), limit_commits: None };
    let kept = config.filter_tags(&vec![tag("A", "v1")]).unwrap();
    assert_eq!(kept, vec![tag("A", "v1")]);
}

#[test]
fn tags_are_kept_in_order() {
    let config =
        GitConfig { tag_pattern: None, skip_tags: None, ignore_tags: Some("^rc".to_string()), limit_commits: None };
    assert!(config.patterns_valid());
    assert!(config.keeps("v1"));
    assert!(!config.keeps("rc1"));
    let kept = config
        .filter_tags(&vec![tag("A", "v1"), tag("B", "rc1"), tag("C", "v2"), tag("D", "rc2")])
        .unwrap();
    assert_eq!(kept, vec![tag("A", "v1"), tag("C", "v2")]);
}

#[test]
fn a_pattern_that_is_no_regular_expression_fails() {
    let config =
        GitConfig { tag_pattern: None, skip_tags: Some("(".to_string()), ignore_tags: None, limit_commits: None };
    assert!(!config.patterns_valid());
    assert_eq!(config.filter_tags(&vec![]), Err(Failure::InvalidPattern));
    assert_eq!(
        changelog("v1", config).process_repository(history(), vec![]),
        Err(Failure::InvalidPattern)
    );
    let config =
        GitConfig { tag_pattern: None, skip_tags: None, ignore_tags: Some("[".to_string()), limit_commits: None };
    assert_eq!(
        changelog("v1", config).process_repository(vec![], vec![]),
        Err(Failure::InvalidPattern)
    );
}

#[test]
fn tags_are_found_by_commit_and_by_name() {
    let tags = vec![tag("A", "v1"), tag("B", "v2"), tag("A", "v3"), tag("C", "v2")];
    assert_eq!(find_tag(&tags, &"A".to_string()), Some(0));
    assert_eq!(find_tag(&tags, &"C".to_string()), Some(3));
    assert_eq!(find_tag(&tags, &"D".to_string()), None);
    assert_eq!(find_name(&tags, &"v2".to_string()), Some(1));
    assert_eq!(find_name(&tags, &"v3".to_string()), Some(2));
    assert_eq!(find_name(&tags, &"v4".to_string()), None);
    assert_eq!(find_tag(&vec![], &"A".to_string()), None);
}

#[test]
fn no_release_stands_before_the_first_tag_of_the_list() {
    assert_eq!(earlier_release(&history(), &vec![tag("A", "v1"), tag("C", "v2")]), None);
    assert_eq!(earlier_release(&history(), &vec![]), None);
    assert_eq!(
        earlier_release(&vec![commit("D", 40)], &vec![tag("A", "v1"), tag("D", "v2")]),
        Some(carrying("A", "v1"))
    );
}

#[test]
fn changelog_path() {
    assert_eq!(DEFAULT_OUTPUT, "CHANGELOG.md");
    let mut made = changelog("v1", plain());
    assert_eq!(made.output_file_name(), "CHANGELOG.md");
    made.project_config.changelog = Some("docs/HISTORY.md".to_string());
    assert_eq!(made.output_file_name(), "docs/HISTORY.md");
}

#[test]
fn build_collects_the_release_chains() {
    let first = vec![open(vec![commit("A", 1)], None)];
    let second = vec![carrying("X", "v0"), open(vec![], Some(0))];
    let content = changelog("v1", plain()).build(vec![
        ProcessOutput::Releases(first.clone()),
        ProcessOutput::Releases(second.clone()),
    ]);
    assert_eq!(content, ChangelogContent::Releases(vec![first, second]));
    assert_eq!(changelog("v1", plain()).build(vec![]), ChangelogContent::Releases(vec![]));
}

#[test]
fn build_lists_versions_where_any_is_given() {
    let content = changelog("v1", plain()).build(vec![
        ProcessOutput::Version("1.0.0".to_string()),
        ProcessOutput::Releases(vec![open(vec![], None)]),
        ProcessOutput::Version("2.1.0".to_string()),
    ]);
    assert_eq!(content, ChangelogContent::Versions("1.0.0\n2.1.0".to_string()));
}

#[test]
fn only_tags_that_match_the_tag_pattern_count() {
    let config = GitConfig {
        tag_pattern: Some("^v[0-9]".to_string()),
        skip_tags: None,
        ignore_tags: None,
        limit_commits: None,
    };
    assert!(config.keeps("v1"));
    assert!(!config.keeps("nightly"));
    let chain = changelog("v3", config)
        .process_repository(history(), vec![tag("A", "v1"), tag("B", "nightly")])
        .unwrap();
    assert_eq!(
        chain,
        vec![
            sealed("v1", vec![commit("A", 10)], None),
            sealed("v3", vec![commit("B", 20), commit("C", 30), commit("D", 40)], Some(0)),
            open(vec![], Some(1)),
        ]
    );
}

#[test]
fn a_tag_pattern_that_is_no_regular_expression_fails() {
    let config = GitConfig {
        tag_pattern: Some("v[".to_string()),
        skip_tags: None,
        ignore_tags: None,
        limit_commits: None,
    };
    assert!(!config.patterns_valid());
    assert_eq!(
        changelog("v1", config.clone()).process_repository(history(), vec![]),
        Err(Failure::InvalidPattern)
    );
    assert_eq!(
        changelog("v1", config).tip_notice(&history(), &vec![]),
        Err(Failure::InvalidPattern)
    );
}

#[test]
fn a_tag_on_the_tip_is_reported() {
    let made = changelog("1.3.0", plain());
    assert_eq!(
        made.tip_notice(&history(), &vec![tag("A", "v1"), tag("D", "v3")]),
        Ok(Some(Msg { text: "There is already a tag (v3) for D".to_string(), level: Level::Warn }))
    );
    assert_eq!(made.tip_notice(&history(), &vec![tag("A", "v1")]), Ok(None));
    assert_eq!(made.tip_notice(&vec![], &vec![tag("A", "v1")]), Ok(None));
}

#[test]
fn an_ignored_tag_on_the_tip_is_not_reported() {
    let config = GitConfig {
        tag_pattern: None,
        skip_tags: None,
        ignore_tags: Some("rc".to_string()),
        limit_commits: None,
    };
    let made = changelog("1.3.0", config);
    assert_eq!(made.tip_notice(&history(), &vec![tag("D", "v3-rc1")]), Ok(None));
    let none_read = GitConfig {
        tag_pattern: None,
        skip_tags: None,
        ignore_tags: None,
        limit_commits: Some(0),
    };
    assert_eq!(changelog("1.3.0", none_read).tip_notice(&history(), &vec![tag("D", "v3")]), Ok(None));
}

#[test]
fn a_tag_list_is_a_map_where_no_commit_has_two_tags() {
    assert!(has_one_tag_each(&vec![]));
    assert!(has_one_tag_each(&vec![tag("A", "v1")]));
    assert!(has_one_tag_each(&vec![tag("A", "v1"), tag("B", "v1"), tag("C", "v2")]));
    assert!(!has_one_tag_each(&vec![tag("A", "v1"), tag("A", "v2")]));
    assert!(!has_one_tag_each(&vec![tag("A", "v1"), tag("B", "v2"), tag("C", "v3"), tag("B", "v4")]));
    assert!(!has_one_tag_each(&vec![tag("A", "v1"), tag("B", "v2"), tag("A", "v1")]));
}

#[test]
fn the_tags_that_stay_of_a_map_are_a_map() {
    let config = GitConfig {
        tag_pattern: None,
        skip_tags: None,
        ignore_tags: Some("beta".to_string()),
        limit_commits: None,
    };
    let kept = config
        .filter_tags(&vec![tag("A", "v1"), tag("B", "v2-beta"), tag("C", "v2")])
        .unwrap();
    assert!(has_one_tag_each(&kept));
}
