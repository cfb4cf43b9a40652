use rellr::commands::feat::{cmd as feat, FeatArgs};
use rellr::commands::fix::{cmd as fix, FixArgs};
use rellr::commands::init::{cmd as init, InitArgs};
use rellr::commands::next::{cmd as next, NextArgs, UpdateType};
use rellr::commands::release::{cmd as release, update_version_in_file, ReleaseArgs};
use rellr::commands::reset::{cmd as reset, ResetArgs};
use rellr::libs::git::{BranchType, MergeKind, RepoAction};
use rellr::libs::msg::{Failure, Level, Msg};
use rellr::libs::project_config::{PackageManager, PackageManagers, ProjectConfig};

fn state(current: &str, next: Option<&str>) -> ProjectConfig {
    ProjectConfig {
        name: "demo".to_string(),
        current: current.to_string(),
        next: next.map(|v| v.to_string()),
        prev: None,
        branch_type: BranchType::Release,
        main_branch: "main".to_string(),
        changelog: None,
        package_managers: None,
    }
}

fn names(list: &[&str]) -> Vec<String> {
    list.iter().map(|name| name.to_string()).collect()
}

fn checkout(branch: &str) -> RepoAction {
    RepoAction::Checkout { branch: branch.to_string(), reference: format!("refs/heads/{}", branch) }
}

#[test]
fn update_type_defaults_to_patch() {
    assert_eq!(UpdateType::default(), UpdateType::Patch);
    assert_eq!(UpdateType::Major.index(), 0);
    assert_eq!(UpdateType::Minor.index(), 1);
    assert_eq!(UpdateType::Patch.index(), 2);
}

#[test]
fn init_makes_a_configuration() {
    let outcome =
        init(InitArgs { name: "demo".to_string(), version: Some("1.2.3".to_string()) }, false)
            .unwrap();
    assert_eq!(outcome.project_config, state("1.2.3", None));
    assert_eq!(
        outcome.message,
        Msg {
            text: "The rellr configuration file was created successfully".to_string(),
            level: Level::Info
        }
    );
}

#[test]
fn init_refuses_where_a_configuration_is_there() {
    let refused = init(InitArgs { name: "demo".to_string(), version: None }, true);
    assert_eq!(refused, Err(Failure::ConfigAlreadyCreated));
}

#[test]
fn next_stages_a_patch_and_creates_its_branch() {
    let outcome =
        next(state("1.2.3", None), NextArgs { update_type: UpdateType::Patch }, &names(&["main"]))
            .unwrap();
    assert_eq!(outcome.project_config.current, "1.2.3");
    assert_eq!(outcome.project_config.next, Some("1.2.4".to_string()));
    assert_eq!(outcome.project_config.prev, None);
    assert_eq!(outcome.warning, None);
    assert_eq!(
        outcome.actions,
        vec![
            RepoAction::Create { name: "release/1.2.4".to_string(), base: "main".to_string() },
            checkout("release/1.2.4"),
        ]
    );
    assert_eq!(
        outcome.message,
        Msg { text: "Next version: 1.2.4".to_string(), level: Level::Info }
    );
}

#[test]
fn next_after_next_renames_the_staged_branch() {
    let first =
        next(state("1.2.3", None), NextArgs { update_type: UpdateType::Patch }, &names(&["main"]))
            .unwrap();
    let second = next(
        first.project_config,
        NextArgs { update_type: UpdateType::Minor },
        &names(&["main", "release/1.2.4"]),
    )
    .unwrap();
    assert_eq!(second.project_config.current, "1.2.3");
    assert_eq!(second.project_config.next, Some("1.3.0".to_string()));
    assert_eq!(second.project_config.prev, Some("1.2.4".to_string()));
    assert_eq!(
        second.actions,
        vec![
            RepoAction::Rename {
                from: "release/1.2.4".to_string(),
                to: "release/1.3.0".to_string()
            },
            checkout("release/1.3.0"),
        ]
    );
    assert_eq!(second.message.text, "Next version: 1.3.0");
}

#[test]
fn next_to_the_staged_version_warns_and_goes_on() {
    let outcome = next(
        state("1.2.3", Some("1.2.4")),
        NextArgs { update_type: UpdateType::Patch },
        &names(&["main", "release/1.2.4"]),
    )
    .unwrap();
    assert_eq!(outcome.project_config, state("1.2.3", Some("1.2.4")));
    assert_eq!(outcome.warning, Some(Failure::ReleaseAlreadyExists));
    assert_eq!(outcome.actions, vec![checkout("release/1.2.4")]);
    assert_eq!(outcome.message.text, "Next version: 1.2.4");
}

#[test]
fn feat_creates_a_feature_branch() {
    let outcome =
        feat(state("1.2.3", None), FeatArgs { name: "login".to_string() }, &names(&["main"]))
            .unwrap();
    assert_eq!(
        outcome.actions,
        vec![
            RepoAction::Create { name: "feature/login".to_string(), base: "main".to_string() },
            checkout("feature/login"),
        ]
    );
    assert_eq!(
        outcome.message,
        Msg { text: "New feature was created successfully".to_string(), level: Level::Info }
    );
}

#[test]
fn feat_checks_out_a_branch_that_is_there() {
    let outcome = feat(
        state("1.2.3", None),
        FeatArgs { name: "login".to_string() },
        &names(&["main", "feature/login"]),
    )
    .unwrap();
    assert_eq!(outcome.actions, vec![checkout("feature/login")]);
}

#[test]
fn fix_creates_a_hotfix_branch() {
    let outcome = fix(
        state("1.2.3", None),
        FixArgs { name: "crash".to_string() },
        &names(&["main", "feature/crash"]),
    )
    .unwrap();
    assert_eq!(
        outcome.actions,
        vec![
            RepoAction::Create { name: "hotfix/crash".to_string(), base: "main".to_string() },
            checkout("hotfix/crash"),
        ]
    );
    assert_eq!(
        outcome.message,
        Msg { text: "New hotfix was created successfully".to_string(), level: Level::Info }
    );
}

#[test]
fn reset_names_the_tag_of_the_current_version() {
    let outcome = reset(&state("1.2.4", None), ResetArgs { version: None });
    assert_eq!(outcome.tag, "v1.2.4");
    assert_eq!(outcome.message.level, Level::Info);
}

#[test]
fn release_needs_a_staged_version() {
    let refused = release(
        state("1.2.3", None),
        ReleaseArgs { project_folder: None },
        vec![],
        4,
        1,
        None,
        None,
        &vec![],
    )
    .unwrap_err();
    assert_eq!(refused.failure, Failure::ReleaseVersionNotSet);
    assert_eq!(
        refused.messages,
        vec![Msg {
            text: "The release version has not yet been set".to_string(),
            level: Level::Error
        }]
    );
}

#[test]
fn release_needs_its_manifests() {
    let refused = release(
        state("1.2.3", Some("1.2.4")),
        ReleaseArgs { project_folder: None },
        names(&["Cargo.toml", "package.json"]),
        4,
        1,
        None,
        None,
        &vec![],
    )
    .unwrap_err();
    assert_eq!(refused.failure, Failure::FilesMissing);
    assert_eq!(
        refused.messages,
        vec![
            Msg { text: "The release failed".to_string(), level: Level::Error },
            Msg {
                text: "The following files are missing:\nCargo.toml\npackage.json".to_string(),
                level: Level::Warn
            },
        ]
    );
}

#[test]
fn release_stops_at_a_conflict() {
    let refused = release(
        state("1.2.3", Some("1.2.4")),
        ReleaseArgs { project_folder: None },
        vec![],
        0,
        0,
        None,
        None,
        &vec![],
    )
    .unwrap_err();
    assert_eq!(refused.failure, Failure::MergeConflict);
    assert_eq!(
        refused.messages,
        vec![Msg {
            text: "Merge conflicts were detected! Resolve conflicts and commit manually"
                .to_string(),
            level: Level::Error
        }]
    );
}

#[test]
fn release_of_a_version_that_is_tagged_is_a_warning() {
    let refused = release(
        state("1.2.3", Some("1.2.4")),
        ReleaseArgs { project_folder: None },
        vec![],
        4,
        1,
        None,
        None,
        &names(&["v1.2.3", "v1.2.4"]),
    )
    .unwrap_err();
    assert_eq!(refused.failure, Failure::TagAlreadyExists);
    assert_eq!(refused.messages.len(), 1);
    assert_eq!(refused.messages[0].level, Level::Warn);
}

#[test]
fn release_plans_merge_promotion_and_commit() {
    let mut config = state("1.2.3", Some("1.2.4"));
    config.package_managers = Some(PackageManagers {
        cargo: Some(PackageManager { path: None, publish: None }),
        npm: Some(PackageManager { path: Some("web".to_string()), publish: Some(true) }),
    });
    let plan = release(
        config,
        ReleaseArgs { project_folder: None },
        vec![],
        4,
        2,
        Some("Ada".to_string()),
        None,
        &names(&["v1.2.3"]),
    )
    .unwrap();
    assert_eq!(plan.merge.kind, MergeKind::FastForward);
    assert_eq!(
        plan.merge.actions,
        vec![
            checkout("main"),
            RepoAction::FastForward { branch: "main".to_string(), to: "release/1.2.4".to_string() },
            RepoAction::Delete { name: "release/1.2.4".to_string() },
        ]
    );
    assert_eq!(plan.project_config.current, "1.2.4");
    assert_eq!(plan.project_config.next, None);
    assert_eq!(plan.project_config.prev, None);
    assert_eq!(plan.manifests, vec!["Cargo.toml", "Cargo.lock", "web/package.json"]);
    assert_eq!(plan.changelog, "CHANGELOG.md");
    assert_eq!(
        plan.commit.paths,
        vec!["Cargo.toml", "Cargo.lock", "web/package.json", "CHANGELOG.md", "rellr.json"]
    );
    assert_eq!(plan.commit.message, "1.2.4");
    assert_eq!(plan.commit.tag, "v1.2.4");
    assert_eq!(plan.commit.tag_message, "1.2.4");
    assert_eq!(plan.commit.signature.name, "Ada");
    assert_eq!(plan.commit.signature.email, "");
    assert_eq!(
        plan.message,
        Msg { text: "The release was completed successfully: 1.2.4".to_string(), level: Level::Info }
    );
    assert_eq!(plan.publish, Some("web".to_string()));
}

#[test]
fn release_writes_the_changelog_where_the_configuration_says() {
    let mut config = state("1.2.3", Some("2.0.0"));
    config.changelog = Some("docs/CHANGES.md".to_string());
    let plan =
        release(config, ReleaseArgs { project_folder: None }, vec![], 2, 0, None, None, &vec![])
            .unwrap();
    assert_eq!(plan.merge.kind, MergeKind::UpToDate);
    assert_eq!(plan.merge.actions, vec![checkout("main")]);
    assert_eq!(plan.changelog, "docs/CHANGES.md");
    assert_eq!(plan.commit.paths, vec!["docs/CHANGES.md", "rellr.json"]);
    assert_eq!(plan.commit.tag, "v2.0.0");
    assert_eq!(plan.publish, None);
}

#[test]
fn version_is_set_in_a_cargo_manifest() {
    let before = "[package]\nname = \"demo\"\nversion = \"1.2.3\"\nedition = \"2021\"\n";
    let after = "[package]\nname = \"demo\"\nversion = \"1.2.4\"\nedition = \"2021\"\n";
    assert_eq!(update_version_in_file(before, "demo", "1.2.4"), Ok(after.to_string()));
}

#[test]
fn version_is_set_in_an_npm_manifest() {
    let before = "{\n  \"name\": \"demo\",\n  \"version\": \"0.9.0\",\n  \"main\": \"x.js\"\n}\n";
    let after = "{\n  \"name\": \"demo\",\n  \"version\": \"1.0.0\",\n  \"main\": \"x.js\"\n}\n";
    assert_eq!(update_version_in_file(before, "demo", "1.0.0"), Ok(after.to_string()));
}

#[test]
fn only_the_named_package_and_only_its_first_place_is_changed() {
    let before = "name = \"other\"\nversion = \"1.2.3\"\nname = \"demo\"\nversion = \"1.2.3\"\nname = \"demo\"\nversion = \"1.2.3\"\n";
    let after = "name = \"other\"\nversion = \"1.2.3\"\nname = \"demo\"\nversion = \"9.9.9\"\nname = \"demo\"\nversion = \"1.2.3\"\n";
    assert_eq!(update_version_in_file(before, "demo", "9.9.9"), Ok(after.to_string()));
}

#[test]
fn a_manifest_without_the_package_stays_as_it_is() {
    let text = "name = \"other\"\nversion = \"1.2.3\"\n";
    assert_eq!(update_version_in_file(text, "demo", "9.9.9"), Ok(text.to_string()));
    assert_eq!(update_version_in_file("", "demo", "9.9.9"), Ok(String::new()));
}

#[test]
fn a_dollar_sign_in_the_version_stands_for_itself() {
    let before = "name = \"demo\"\nversion = \"1.2.3\"\n";
    let after = "name = \"demo\"\nversion = \"$1.$$x\"\n";
    assert_eq!(update_version_in_file(before, "demo", "$1.$$x"), Ok(after.to_string()));
}

#[test]
fn a_package_name_that_breaks_the_pattern_fails() {
    assert_eq!(
        update_version_in_file("name = \"demo\"", "de(mo", "1.0.0"),
        Err(Failure::InvalidPattern)
    );
}

#[test]
fn next_fails_where_the_new_branch_name_is_taken() {
    let refused = next(
        state("1.2.3", Some("1.2.4")),
        NextArgs { update_type: UpdateType::Minor },
        &names(&["main", "release/1.2.4", "release/1.3.0"]),
    );
    assert_eq!(refused, Err(Failure::BranchAlreadyExists));
}

#[test]
fn release_with_a_normal_merge_plans_up_to_the_merge_step() {
    let plan = release(
        state("1.2.3", Some("1.2.4")),
        ReleaseArgs { project_folder: None },
        vec![],
        1,
        3,
        None,
        None,
        &vec![],
    )
    .unwrap();
    assert_eq!(plan.merge.kind, MergeKind::Normal);
    assert_eq!(
        plan.merge.actions,
        vec![
            checkout("main"),
            RepoAction::Merge { branch: "main".to_string(), from: "release/1.2.4".to_string() },
        ]
    );
}

#[test]
fn a_topic_branch_needs_the_main_branch_to_start_from() {
    let refused =
        feat(state("1.2.3", None), FeatArgs { name: "login".to_string() }, &names(&["master"]));
    assert_eq!(refused, Err(Failure::BranchNotFound));
    let refused = fix(state("1.2.3", None), FixArgs { name: "crash".to_string() }, &vec![]);
    assert_eq!(refused, Err(Failure::BranchNotFound));
    let refused =
        next(state("1.2.3", None), NextArgs { update_type: UpdateType::Patch }, &names(&["dev"]));
    assert_eq!(refused, Err(Failure::BranchNotFound));
}
