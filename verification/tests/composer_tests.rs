use version_it::blocks::{BlockType, VersionBlock, VersionContext, VersionTemplate};
use version_it::composer::{ComposerConfig, VersionComposer};

#[test]
fn test_version_composer_basic() {
    let template = VersionTemplate::semantic_version();
    let mut composer = VersionComposer::new().with_template(template);

    let result = composer.generate_version(Some("semantic"));
    assert!(result.is_ok());
    let version = result.unwrap();
    assert!(semver::Version::parse(&version).is_ok());
}

#[test]
fn test_version_composer_with_counter() {
    let template = VersionTemplate::new("test")
        .with_separator("-")
        .add_block(VersionBlock::new(
            "version",
            BlockType::Semantic { major: Some(1), minor: Some(0), patch: Some(0) },
        ))
        .add_block(VersionBlock::new(
            "counter",
            BlockType::Counter { name: "build".to_string() },
        ));

    let mut composer = VersionComposer::new().with_template(template).with_default_template(
        "test",
    );

    composer.set_counter("build", 5);
    let result = composer.generate_version(None);
    assert_eq!(result.unwrap(), "1.0.0-5");
}

#[test]
fn test_increment_counter() {
    let mut composer = VersionComposer::new();
    assert_eq!(composer.increment_counter("test"), 1);
    assert_eq!(composer.increment_counter("test"), 2);
    assert_eq!(composer.increment_counter("other"), 1);
}

#[test]
fn test_composer_config() {
    let mut config = ComposerConfig::new();
    config.set_counter("build", 10);
    config.set_default_template("semantic");

    let template = VersionTemplate::semantic_version();
    config.add_template(template);

    let composer = VersionComposer::from_config(&config);
    assert_eq!(composer.counters.get("build"), Some(&10));
    assert_eq!(composer.default_template.as_deref(), Some("semantic"));
    assert!(composer.templates.contains_key("semantic"));
}

#[test]
fn test_preset_templates() {
    let semantic = VersionTemplate::semantic_version();
    assert_eq!(semantic.name, "semantic");
    assert_eq!(semantic.blocks.len(), 1);

    let calver = VersionTemplate::calver_short();
    assert_eq!(calver.name, "calver-short");
    assert_eq!(calver.blocks.len(), 1);

    let timestamped = VersionTemplate::timestamped();
    assert_eq!(timestamped.name, "timestamped");
    assert_eq!(timestamped.blocks.len(), 2);
    assert_eq!(timestamped.separator, "-");
}

#[test]
fn test_complex_template() {
    let template = VersionTemplate::custom("release")
        .with_prefix("v")
        .with_separator("-")
        .add_block(VersionBlock::new(
            "major",
            BlockType::Semantic { major: Some(2), minor: Some(0), patch: Some(0) },
        ))
        .add_block(VersionBlock::new("date", BlockType::Date { format: "%Y%m%d".to_string() }))
        .add_block(VersionBlock::new("branch", BlockType::Branch))
        .add_block(VersionBlock::new(
            "build",
            BlockType::Counter { name: "release".to_string() },
        ));

    let mut composer = VersionComposer::new().with_template(template);
    composer.set_counter("release", 3);

    let result = composer.generate_version(Some("release"));
    assert!(result.is_ok());
    let version = result.unwrap();
    assert!(version.starts_with("v2.0.0-"));
    assert!(version.ends_with("-3"));
}

#[test]
fn test_generate_without_template_or_default_fails() {
    let mut composer = VersionComposer::new();
    let err = composer.generate_version(None).unwrap_err();
    assert!(err.message().contains("No template"));
}

#[test]
fn test_generate_unknown_template_fails() {
    let mut composer = VersionComposer::new();
    let err = composer.generate_version(Some("missing")).unwrap_err();
    assert!(err.message().contains("missing"));
}

#[test]
fn test_generate_with_context_overrides() {
    let template = VersionTemplate::new("ctx")
        .with_separator("-")
        .add_block(VersionBlock::new(
            "version",
            BlockType::Semantic { major: None, minor: None, patch: None },
        ))
        .add_block(VersionBlock::new("n", BlockType::Counter { name: "n".to_string() }))
        .add_block(VersionBlock::new("m", BlockType::Counter { name: "m".to_string() }));

    let mut composer = VersionComposer::new().with_template(template);
    composer.set_counter("n", 1);
    composer.set_counter("m", 9);

    let context = VersionContext::new().with_version("4.5.6").with_counter("n", 2);
    let result = composer.generate_version_with_context(Some("ctx"), context).unwrap();
    assert_eq!(result, "4.5.6-2-9");
}

#[test]
fn test_set_counter_overwrites() {
    let mut composer = VersionComposer::new();
    composer.set_counter("x", 3);
    composer.set_counter("x", 8);
    assert_eq!(composer.counters.get("x"), Some(&8));
}

#[test]
fn test_list_templates_names() {
    let mut composer = VersionComposer::new();
    composer.add_template(VersionTemplate::semantic_version());
    composer.add_template(VersionTemplate::calver_short());
    let mut names = composer.list_templates();
    names.sort();
    assert_eq!(names, vec!["calver-short".to_string(), "semantic".to_string()]);
}

#[test]
fn test_parse_counter_set_ok() {
    assert_eq!(
        version_it::composer::parse_counter_set("build:41").unwrap(),
        ("build".to_string(), 41)
    );
}

#[test]
fn test_parse_counter_set_rejects() {
    assert!(version_it::composer::parse_counter_set("build").is_err());
    assert!(version_it::composer::parse_counter_set("build:x").is_err());
    assert!(version_it::composer::parse_counter_set("a:b:c").is_err());
}

#[test]
fn test_prefix_suffix_scenario() {
    // prefix "v", separator "-", a fixed semantic block and a counter.
    let template = VersionTemplate::new("scenario")
        .with_prefix("v")
        .with_separator("-")
        .add_block(VersionBlock::new(
            "version",
            BlockType::Semantic { major: Some(1), minor: Some(0), patch: Some(0) },
        ))
        .add_block(VersionBlock::new(
            "build",
            BlockType::Counter { name: "build".to_string() },
        ));
    let mut composer = VersionComposer::new().with_template(template);
    composer.set_counter("build", 5);
    assert_eq!(composer.generate_version(Some("scenario")).unwrap(), "v1.0.0-5");
}
