use rellr::commands::init::InitArgs;
use rellr::commands::next::UpdateType;
use rellr::libs::git::BranchType;
use rellr::libs::msg::Failure;
use rellr::libs::project_config::{
    pm_config, pm_paths, ManagerKind, PackageManager, PackageManagerConfig, PackageManagers,
    ProjectConfig, PROJECT_CONFIG,
};

fn config(current: &str, next: Option<&str>) -> ProjectConfig {
    ProjectConfig {
        name: "demo".to_string(),
        current: current.to_string(),
        next: next.map(|v| v.to_string()),
        prev: None,
        branch_type: BranchType::Release,
        main_branch: "main".to_string(),
        changelog: None,
        package_managers: None,
    }
}

#[test]
fn new_project_starts_at_zero() {
    let made = ProjectConfig::new(InitArgs { name: "demo".to_string(), version: None });
    assert_eq!(made, config("0.0.0", None));
}

#[test]
fn new_project_takes_the_given_version() {
    let made =
        ProjectConfig::new(InitArgs { name: "demo".to_string(), version: Some("2.5.1".into()) });
    assert_eq!(made, config("2.5.1", None));
}

#[test]
fn new_if_not_exist_refuses_a_second_configuration() {
    let args = InitArgs { name: "demo".to_string(), version: None };
    assert_eq!(ProjectConfig::new_if_not_exist(args, true), Err(Failure::ConfigAlreadyCreated));
    let args = InitArgs { name: "demo".to_string(), version: None };
    assert_eq!(ProjectConfig::new_if_not_exist(args, false), Ok(config("0.0.0", None)));
}

#[test]
fn configuration_file_name() {
    assert_eq!(PROJECT_CONFIG, "rellr.json");
}

#[test]
fn bump_patch_then_minor_keeps_the_version_staged_before() {
    let mut state = config("1.2.3", None);
    let first = state.up_version(&UpdateType::Patch).unwrap();
    assert_eq!(first.current, "1.2.3");
    assert_eq!(first.next, Some("1.2.4".to_string()));
    assert_eq!(first.prev, None);
    assert_eq!(state, first);
    let second = state.up_version(&UpdateType::Minor).unwrap();
    assert_eq!(second.current, "1.2.3");
    assert_eq!(second.next, Some("1.3.0".to_string()));
    assert_eq!(second.prev, Some("1.2.4".to_string()));
    assert_eq!(state, second);
}

#[test]
fn bump_major_clears_minor_and_patch() {
    let mut state = config("1.2.3", None);
    let after = state.up_version(&UpdateType::Major).unwrap();
    assert_eq!(after.next, Some("2.0.0".to_string()));
}

#[test]
fn bump_minor_clears_patch() {
    let mut state = config("0.9.17", None);
    let after = state.up_version(&UpdateType::Minor).unwrap();
    assert_eq!(after.next, Some("0.10.0".to_string()));
}

#[test]
fn bump_starts_from_current_not_from_what_is_staged() {
    let mut state = config("1.2.3", Some("1.3.0"));
    let after = state.up_version(&UpdateType::Patch).unwrap();
    assert_eq!(after.next, Some("1.2.4".to_string()));
    assert_eq!(after.prev, Some("1.3.0".to_string()));
}

#[test]
fn bump_to_the_staged_version_is_rejected() {
    let mut state = config("1.2.3", Some("1.2.4"));
    state.prev = Some("1.3.0".to_string());
    let before = state.clone();
    assert_eq!(state.up_version(&UpdateType::Patch), Err(Failure::ReleaseAlreadyExists));
    assert_eq!(state, before);
}

#[test]
fn bump_twice_with_the_same_kind_is_rejected_the_second_time() {
    let mut state = config("1.2.3", None);
    assert!(state.up_version(&UpdateType::Minor).is_ok());
    let before = state.clone();
    assert_eq!(state.up_version(&UpdateType::Minor), Err(Failure::ReleaseAlreadyExists));
    assert_eq!(state, before);
}

#[test]
fn bump_leaves_out_what_is_not_a_number() {
    let mut state = config("1.x.3", None);
    let after = state.up_version(&UpdateType::Minor).unwrap();
    assert_eq!(after.next, Some("1.4".to_string()));
}

#[test]
fn bump_of_a_short_version_changes_no_component() {
    let mut state = config("1.2", None);
    let after = state.up_version(&UpdateType::Patch).unwrap();
    assert_eq!(after.next, Some("1.2".to_string()));
}

#[test]
fn bump_of_the_greatest_component_does_not_wrap() {
    let mut state = config("1.4294967295.3", None);
    let after = state.up_version(&UpdateType::Minor).unwrap();
    assert_eq!(after.next, Some("1.4294967296.0".to_string()));
}

#[test]
fn promote_makes_the_staged_version_current() {
    let mut state = config("1.2.3", Some("1.3.0"));
    state.prev = Some("1.2.4".to_string());
    let after = state.next_to_current().unwrap();
    assert_eq!(after, config("1.3.0", None));
    assert_eq!(state, after);
}

#[test]
fn promote_twice_fails_the_second_time() {
    let mut state = config("1.2.3", Some("1.2.4"));
    assert!(state.next_to_current().is_ok());
    let before = state.clone();
    assert_eq!(state.next_to_current(), Err(Failure::ReleaseVersionNotSet));
    assert_eq!(state, before);
    assert_eq!(state.current, "1.2.4");
}

#[test]
fn promote_without_a_staged_version_fails() {
    let mut state = config("1.2.3", None);
    assert_eq!(state.next_to_current(), Err(Failure::ReleaseVersionNotSet));
    assert_eq!(state, config("1.2.3", None));
}

#[test]
fn bump_after_promote_is_accepted_again() {
    let mut state = config("1.2.3", None);
    state.up_version(&UpdateType::Patch).unwrap();
    state.next_to_current().unwrap();
    let after = state.up_version(&UpdateType::Patch).unwrap();
    assert_eq!(after.current, "1.2.4");
    assert_eq!(after.next, Some("1.2.5".to_string()));
    assert_eq!(after.prev, None);
}

#[test]
fn no_package_managers_no_paths() {
    let mut state = config("1.2.3", None);
    assert_eq!(state.paths(), Vec::<String>::new());
}

#[test]
fn cargo_paths_lie_under_its_path() {
    let mut state = config("1.2.3", None);
    state.package_managers = Some(PackageManagers {
        cargo: Some(PackageManager { path: Some("crates/app".to_string()), publish: None }),
        npm: None,
    });
    assert_eq!(state.paths(), vec!["crates/app/Cargo.toml", "crates/app/Cargo.lock"]);
}

#[test]
fn a_manager_without_a_path_works_in_the_project_directory() {
    let mut state = config("1.2.3", None);
    state.package_managers = Some(PackageManagers {
        cargo: Some(PackageManager { path: None, publish: None }),
        npm: Some(PackageManager { path: None, publish: Some(true) }),
    });
    assert_eq!(state.paths(), vec!["Cargo.toml", "Cargo.lock", "package.json"]);
}

#[test]
fn npm_paths_are_brought_to_one_form() {
    let mut state = config("1.2.3", None);
    state.package_managers = Some(PackageManagers {
        cargo: None,
        npm: Some(PackageManager { path: Some(".\\web\\ui".to_string()), publish: None }),
    });
    assert_eq!(state.paths(), vec!["web/ui/package.json"]);
}

#[test]
fn paths_leave_the_configuration_as_it_is() {
    let mut state = config("1.2.3", Some("1.2.4"));
    state.package_managers = Some(PackageManagers {
        cargo: Some(PackageManager { path: Some("a".to_string()), publish: Some(false) }),
        npm: None,
    });
    let before = state.clone();
    state.paths();
    assert_eq!(state, before);
}

#[test]
fn manager_entry_defaults() {
    assert_eq!(
        pm_config(&None),
        PackageManagerConfig { path: String::new(), publish: false, active: false }
    );
    assert_eq!(
        pm_config(&Some(PackageManager { path: None, publish: None })),
        PackageManagerConfig { path: String::new(), publish: false, active: true }
    );
    assert_eq!(
        pm_config(&Some(PackageManager { path: Some("x".to_string()), publish: Some(true) })),
        PackageManagerConfig { path: "x".to_string(), publish: true, active: true }
    );
}

#[test]
fn a_manager_that_takes_no_part_has_no_paths() {
    let idle = PackageManagerConfig { path: "x".to_string(), publish: true, active: false };
    assert_eq!(pm_paths(ManagerKind::Cargo, &idle), Vec::<String>::new());
    assert_eq!(pm_paths(ManagerKind::Npm, &idle), Vec::<String>::new());
}

#[test]
fn manager_files() {
    assert_eq!(ManagerKind::Cargo.files(), vec!["Cargo.toml", "Cargo.lock"]);
    assert_eq!(ManagerKind::Npm.files(), vec!["package.json"]);
}

#[test]
fn publishing_is_asked_for_by_the_npm_entry() {
    let mut state = config("1.2.3", None);
    assert_eq!(state.publish(), None);
    state.package_managers = Some(PackageManagers {
        cargo: Some(PackageManager { path: Some("a".to_string()), publish: Some(true) }),
        npm: None,
    });
    assert_eq!(state.publish(), None);
    state.package_managers = Some(PackageManagers {
        cargo: None,
        npm: Some(PackageManager { path: Some("web".to_string()), publish: None }),
    });
    assert_eq!(state.publish(), None);
    state.package_managers = Some(PackageManagers {
        cargo: None,
        npm: Some(PackageManager { path: Some("web".to_string()), publish: Some(false) }),
    });
    assert_eq!(state.publish(), None);
    state.package_managers = Some(PackageManagers {
        cargo: None,
        npm: Some(PackageManager { path: None, publish: Some(true) }),
    });
    assert_eq!(state.publish(), Some(String::new()));
}
