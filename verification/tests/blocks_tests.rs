use version_it::blocks::{BlockType, VersionBlock, VersionContext, VersionTemplate};

#[test]
fn test_semantic_block() {
    let block = VersionBlock::new(
        "version",
        BlockType::Semantic { major: Some(1), minor: Some(2), patch: Some(3) },
    );
    let context = VersionContext::new();
    assert_eq!(block.generate_value(&context).unwrap(), "1.2.3");
}

#[test]
fn test_calver_block_different_formats() {
    let block = VersionBlock::new(
        "date",
        BlockType::Calver { year: Some(2025), month: Some(10), day: Some(10) },
    );
    let context = VersionContext::new();

    let formatted_block = block.clone().with_format("YYYY.MM.DD");
    assert_eq!(formatted_block.generate_value(&context).unwrap(), "2025.10.10");

    let short_block = block.with_format("YYMMDD");
    assert_eq!(short_block.generate_value(&context).unwrap(), "251010");
}

#[test]
fn test_timestamp_block() {
    let block = VersionBlock::new("timestamp", BlockType::Timestamp);
    let context = VersionContext::new();
    let result = block.generate_value(&context).unwrap();
    assert!(result.len() == 14); // YYYYMMDDHHMMSS format
}

#[test]
fn test_text_block() {
    let block = VersionBlock::new("label", BlockType::Text { value: "alpha".to_string() });
    let context = VersionContext::new();
    assert_eq!(block.generate_value(&context).unwrap(), "alpha");
}

#[test]
fn test_counter_block() {
    let block = VersionBlock::new("counter", BlockType::Counter { name: "build".to_string() });
    let context = VersionContext::new().with_counter("build", 42);
    assert_eq!(block.generate_value(&context).unwrap(), "42");
}

#[test]
fn test_version_template() {
    let template = VersionTemplate::new("test")
        .with_prefix("v")
        .with_separator(".")
        .add_block(VersionBlock::new(
            "major",
            BlockType::Semantic { major: Some(1), minor: Some(0), patch: Some(0) },
        ))
        .add_block(VersionBlock::new("date", BlockType::Date { format: "%Y%m%d".to_string() }))
        .add_block(VersionBlock::new("commit", BlockType::Commit));

    let mut context = VersionContext::new();
    let result = template.generate(&mut context);

    assert!(result.is_ok());
    let version = result.unwrap();
    assert!(version.starts_with("v1.0.0."));
    assert!(version.contains('.'));
}

#[test]
fn test_complex_version_template() {
    let template = VersionTemplate::new("complex")
        .with_separator("-")
        .with_prefix("release-")
        .add_block(VersionBlock::new(
            "ver",
            BlockType::Semantic { major: Some(2), minor: Some(1), patch: Some(0) },
        ))
        .add_block(VersionBlock::new("branch", BlockType::Branch))
        .add_block(VersionBlock::new(
            "build",
            BlockType::Counter { name: "build_counter".to_string() },
        ));

    let mut context = VersionContext::new().with_branch("main").with_counter("build_counter", 5);

    let result = template.generate(&mut context).unwrap();
    assert!(result.starts_with("release-2.1.0-"));
    assert!(result.contains("-main-5"));
}

#[test]
fn test_versioned_block_reference() {
    let template = VersionTemplate::new("ref-test")
        .add_block(VersionBlock::new(
            "base",
            BlockType::Semantic { major: Some(1), minor: Some(2), patch: Some(3) },
        ))
        .add_block(VersionBlock::new("ref", BlockType::Versioned { name: "base".to_string() }));

    let mut context = VersionContext::new();
    let result = template.generate(&mut context).unwrap();
    assert_eq!(result, "1.2.3.1.2.3");
}

#[test]
fn test_complex_version_composition() {
    // Test a complex real-world version composition scenario
    let template = VersionTemplate::new("enterprise-release")
        .with_prefix("v")
        .with_separator("-")
        .add_block(VersionBlock::new(
            "major",
            BlockType::Semantic { major: Some(3), minor: Some(0), patch: Some(0) },
        ))
        .add_block(
            VersionBlock::new("date", BlockType::Calver { year: None, month: None, day: None })
                .with_format("YY.MM"),
        )
        .add_block(VersionBlock::new(
            "release",
            BlockType::Counter { name: "release".to_string() },
        ))
        .add_block(VersionBlock::new("commit", BlockType::Commit));

    let mut context = VersionContext::new().with_counter("release", 12).with_commit("abc123");

    let result = template.generate(&mut context).unwrap();

    assert!(result.starts_with("v3.0.0-"));
    assert!(result.contains("-12-"));
    assert!(result.ends_with("abc123"));
}

#[test]
fn test_error_handling() {
    // Test error handling for invalid configurations
    let template = VersionTemplate::new("error-test").add_block(VersionBlock::new(
        "ref",
        BlockType::Versioned { name: "nonexistent".to_string() },
    ));

    let mut context = VersionContext::new();
    let result = template.generate(&mut context);

    assert!(result.is_err());
    let error = result.unwrap_err().message();
    assert!(error.contains("nonexistent"));
}

#[test]
fn test_versioned_reference_concatenation_without_separator() {
    let template = VersionTemplate::new("pair")
        .with_separator("")
        .add_block(VersionBlock::new("x", BlockType::Text { value: "1.2.3".to_string() }))
        .add_block(VersionBlock::new("copy", BlockType::Versioned { name: "x".to_string() }));

    let mut context = VersionContext::new();
    assert_eq!(template.generate(&mut context).unwrap(), "1.2.31.2.3");
}

#[test]
fn test_generate_idempotent_without_clock_blocks() {
    let template = VersionTemplate::new("idem")
        .with_separator("-")
        .add_block(VersionBlock::new(
            "ver",
            BlockType::Semantic { major: None, minor: None, patch: None },
        ))
        .add_block(VersionBlock::new("n", BlockType::Counter { name: "n".to_string() }))
        .add_block(VersionBlock::new("ref", BlockType::Versioned { name: "ver".to_string() }));

    let mut context = VersionContext::new().with_version("3.4.5").with_counter("n", 7);
    let first = template.generate(&mut context).unwrap();
    let second = template.generate(&mut context).unwrap();
    assert_eq!(first, second);
    assert_eq!(first, "3.4.5-7-3.4.5");
}

#[test]
fn test_semantic_block_rejects_bad_base() {
    let block = VersionBlock::new(
        "version",
        BlockType::Semantic { major: None, minor: None, patch: None },
    );
    let context = VersionContext::new().with_version("not-a-version");
    let err = block.generate_value(&context).unwrap_err();
    assert!(err.message().contains("not-a-version"));
}

#[test]
fn test_semantic_block_partial_override() {
    let block = VersionBlock::new(
        "version",
        BlockType::Semantic { major: None, minor: Some(9), patch: None },
    );
    let context = VersionContext::new().with_version("1.2.3");
    assert_eq!(block.generate_value(&context).unwrap(), "1.9.3");
}

#[test]
fn test_build_number_block_defaults_to_one() {
    let block = VersionBlock::new("bn", BlockType::BuildNumber);
    let context = VersionContext::new();
    assert_eq!(block.generate_value(&context).unwrap(), "1");
    let context = VersionContext::new().with_build_number(17);
    assert_eq!(block.generate_value(&context).unwrap(), "17");
}

#[test]
fn test_commit_block_without_context_is_unknown() {
    let block = VersionBlock::new("c", BlockType::Commit);
    let context = VersionContext::new();
    assert_eq!(block.generate_value(&context).unwrap(), "unknown");
}

#[test]
fn test_counter_block_unseen_name_is_zero() {
    let block = VersionBlock::new("counter", BlockType::Counter { name: "none".to_string() });
    let context = VersionContext::new();
    assert_eq!(block.generate_value(&context).unwrap(), "0");
}

#[test]
fn test_calver_block_packed_long_format() {
    let block = VersionBlock::new(
        "date",
        BlockType::Calver { year: Some(2025), month: Some(3), day: Some(7) },
    )
    .with_format("YYYYMMDD");
    let context = VersionContext::new();
    assert_eq!(block.generate_value(&context).unwrap(), "20250307");
}

#[test]
fn test_date_block_free_format() {
    let block = VersionBlock::new("d", BlockType::Date { format: "%Y%m%d".to_string() });
    let context = VersionContext::new();
    let value = block.generate_value(&context).unwrap();
    assert_eq!(value.len(), 8);
    assert!(value.chars().all(|c| c.is_ascii_digit()));
}

#[test]
fn test_timestamp_block_unix_formats() {
    let context = VersionContext::new();
    let unix = VersionBlock::new("t", BlockType::Timestamp)
        .with_format("unix")
        .generate_value(&context)
        .unwrap();
    assert!(unix.parse::<i64>().is_ok());
    let unix_ms = VersionBlock::new("t", BlockType::Timestamp)
        .with_format("unix_ms")
        .generate_value(&context)
        .unwrap();
    assert!(unix_ms.parse::<i64>().is_ok());
    assert!(unix_ms.len() > unix.len());
    let iso = VersionBlock::new("t", BlockType::Timestamp)
        .with_format("iso")
        .generate_value(&context)
        .unwrap();
    assert!(iso.contains('T'));
}

#[test]
fn test_suffix_applied_without_separator() {
    let template = VersionTemplate::new("suffixed")
        .with_prefix("v")
        .with_suffix("-beta")
        .add_block(VersionBlock::new("t", BlockType::Text { value: "1.0.0".to_string() }));
    let mut context = VersionContext::new();
    assert_eq!(template.generate(&mut context).unwrap(), "v1.0.0-beta");
}

#[test]
fn test_empty_template_generates_affixes_only() {
    let template = VersionTemplate::new("empty").with_prefix("v").with_suffix("!");
    let mut context = VersionContext::new();
    assert_eq!(template.generate(&mut context).unwrap(), "v!");
}

#[test]
fn test_failure_aborts_whole_template() {
    let template = VersionTemplate::new("abort")
        .add_block(VersionBlock::new("a", BlockType::Text { value: "ok".to_string() }))
        .add_block(VersionBlock::new("bad", BlockType::Versioned { name: "zzz".to_string() }))
        .add_block(VersionBlock::new("b", BlockType::Text { value: "after".to_string() }));

    let mut context = VersionContext::new();
    assert!(template.generate(&mut context).is_err());
}
