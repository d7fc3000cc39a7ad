use version_it::config::{ChangeAction, ChangeTypeMap, Config};

fn base_config() -> Config {
    Config {
        run_on_branches: vec![],
        versioning_scheme: "semantic".to_string(),
        first_version: "1.0.0".to_string(),
        current_version_file: None,
        changelog_exporters: None,
        calver_enable_branch: false,
        changelog_sections: vec![],
        change_substitutions: vec![],
        change_type_map: vec![],
        version_headers: None,
        package_files: None,
        subprojects: None,
        channel: None,
        commit_based_bumping: false,
        enable_expensive_metrics: false,
        structured_output: false,
    }
}

#[test]
fn test_determine_bump_from_commit_with_regex() {
    let config = Config {
        run_on_branches: vec![],
        versioning_scheme: "semantic".to_string(),
        first_version: "1.0.0".to_string(),
        current_version_file: None,
        changelog_exporters: None,
        calver_enable_branch: false,
        changelog_sections: vec![],
        change_substitutions: vec![],
        change_type_map: vec![
            ChangeTypeMap {
                label: "feat".to_string(),
                pattern: Some(r"feat.*".to_string()),
                action: ChangeAction::Minor,
            },
            ChangeTypeMap {
                label: "fix".to_string(),
                pattern: Some(r"fix.*bug".to_string()),
                action: ChangeAction::Patch,
            },
        ],
        version_headers: None,
        package_files: None,
        subprojects: None,
        channel: None,
        commit_based_bumping: true,
        enable_expensive_metrics: false,
        structured_output: false,
    };

    assert_eq!(
        config.determine_bump_from_commit("feat: add new feature"),
        Some("minor".to_string())
    );
    assert_eq!(
        config.determine_bump_from_commit("fix: critical bug fix"),
        Some("patch".to_string())
    );
    assert_eq!(config.determine_bump_from_commit("fix: typo fix"), None);
}

#[test]
fn test_determine_bump_invalid_regex_falls_back_to_label() {
    let mut config = base_config();
    config.change_type_map = vec![ChangeTypeMap {
        label: "feat".to_string(),
        pattern: Some("(".to_string()),
        action: ChangeAction::Minor,
    }];
    assert_eq!(config.determine_bump_from_commit("feat: thing"), Some("minor".to_string()));
    assert_eq!(config.determine_bump_from_commit("chore: thing"), None);
}

#[test]
fn test_determine_bump_null_action_keeps_looking() {
    let mut config = base_config();
    config.change_type_map = vec![
        ChangeTypeMap { label: "x".to_string(), pattern: None, action: ChangeAction::Null },
        ChangeTypeMap { label: "x".to_string(), pattern: None, action: ChangeAction::Major },
    ];
    assert_eq!(config.determine_bump_from_commit("x: breaking"), Some("major".to_string()));
}

#[test]
fn test_higher_bump_order() {
    let config = base_config();
    assert_eq!(config.higher_bump(None, None), None);
    assert_eq!(config.higher_bump(Some("patch"), None), Some("patch".to_string()));
    assert_eq!(config.higher_bump(None, Some("minor")), Some("minor".to_string()));
    assert_eq!(config.higher_bump(Some("patch"), Some("major")), Some("major".to_string()));
    assert_eq!(config.higher_bump(Some("major"), Some("patch")), Some("major".to_string()));
    assert_eq!(config.higher_bump(Some("weird"), Some("minor")), Some("weird".to_string()));
}

#[test]
fn test_analyze_commits_disabled() {
    let mut config = base_config();
    config.commit_based_bumping = false;
    let commits = vec!["feat: a".to_string()];
    assert_eq!(config.analyze_commits_for_bump("main", &commits), None);
}

#[test]
fn test_analyze_commits_wrong_branch() {
    let mut config = base_config();
    config.commit_based_bumping = true;
    config.run_on_branches = vec!["main".to_string()];
    config.change_type_map = vec![ChangeTypeMap {
        label: "feat".to_string(),
        pattern: None,
        action: ChangeAction::Minor,
    }];
    let commits = vec!["feat: a".to_string()];
    assert_eq!(config.analyze_commits_for_bump("dev", &commits), None);
}

#[test]
fn test_analyze_commits_picks_highest() {
    let mut config = base_config();
    config.commit_based_bumping = true;
    config.run_on_branches = vec!["main".to_string()];
    config.change_type_map = vec![
        ChangeTypeMap { label: "feat".to_string(), pattern: None, action: ChangeAction::Minor },
        ChangeTypeMap { label: "fix".to_string(), pattern: None, action: ChangeAction::Patch },
        ChangeTypeMap {
            label: "breaking".to_string(),
            pattern: None,
            action: ChangeAction::Major,
        },
    ];
    let commits = vec![
        "fix: small".to_string(),
        "feat: medium".to_string(),
        "breaking: large".to_string(),
    ];
    assert_eq!(config.analyze_commits_for_bump("main", &commits), Some("major".to_string()));
}

#[test]
fn test_is_version_tag_semantic() {
    let config = base_config();
    assert!(config.is_version_tag("1.2.3"));
    assert!(config.is_version_tag("1.2.3-rc.1"));
    assert!(!config.is_version_tag("v1.2.3"));
    assert!(!config.is_version_tag("nightly"));
}

#[test]
fn test_is_version_tag_calver() {
    let mut config = base_config();
    config.versioning_scheme = "calver".to_string();
    assert!(config.is_version_tag("25.10.01"));
    assert!(!config.is_version_tag("25x10"));
    assert!(!config.is_version_tag("2510"));
}

#[test]
fn test_is_version_tag_other_scheme() {
    let mut config = base_config();
    config.versioning_scheme = "pattern".to_string();
    assert!(config.is_version_tag("anything-goes"));
}
