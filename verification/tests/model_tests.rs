use instrux::model::{
    InstruxConfiguration, InstruxConfigurationLanguage, InstruxConfigurationTargetsValue,
    InstruxConfigurationTargetsValueOutputMode, InstruxConfigurationVersion, Targets,
};
use instrux::parse::parse_markdown_instructions;
use instrux::defaults;

#[test]
fn test_target_names_round_trip() {
    let names = [
        ("copilot", Targets::Copilot),
        ("cline", Targets::Cline),
        ("cursor", Targets::Cursor),
        ("junie", Targets::Junie),
        ("codex", Targets::Codex),
        ("agentsmd", Targets::Agentsmd),
    ];
    for (name, target) in names {
        assert_eq!(Targets::from_str(name).unwrap(), target);
        assert_eq!(target.as_str(), name);
    }
    let err = Targets::from_str("vim").unwrap_err();
    assert_eq!(err.message(), "invalid value");
}

#[test]
fn test_language_and_output_mode_parsing() {
    assert_eq!(
        InstruxConfigurationLanguage::from_str("English").unwrap(),
        InstruxConfigurationLanguage::English
    );
    assert_eq!(
        InstruxConfigurationLanguage::from_str("Japanese").unwrap(),
        InstruxConfigurationLanguage::Japanese
    );
    assert!(InstruxConfigurationLanguage::from_str("french").is_err());
    assert_eq!(
        InstruxConfigurationTargetsValueOutputMode::from_str("single").unwrap(),
        InstruxConfigurationTargetsValueOutputMode::Single
    );
    assert_eq!(
        InstruxConfigurationTargetsValueOutputMode::from_str("multiple").unwrap(),
        InstruxConfigurationTargetsValueOutputMode::Multiple
    );
    assert!(InstruxConfigurationTargetsValueOutputMode::from_str("both").is_err());
}

#[test]
fn test_version_pattern() {
    for ok in ["0.1.0", "1.2.3", "10.20.30", "1.2.3-alpha.1", "1.2.3-RC9"] {
        let v = InstruxConfigurationVersion::from_str(ok).unwrap();
        assert_eq!(v.as_str(), ok);
    }
    for bad in ["", "1", "1.2", "1.2.3.4", "a.b.c", "1.2.3-", "1.2.3-é", "v1.2.3"] {
        assert!(
            InstruxConfigurationVersion::from_str(bad).is_err(),
            "accepted {:?}",
            bad
        );
    }
}

#[test]
fn test_builder_requires_targets_and_version() {
    let missing = InstruxConfiguration::builder().build();
    assert!(missing.is_err());
    assert_eq!(missing.unwrap_err().message(), "no value supplied for targets");

    let built = InstruxConfiguration::builder()
        .targets(vec![(Targets::Cline, InstruxConfigurationTargetsValue::default())])
        .version(InstruxConfigurationVersion::from_str("0.1.0").unwrap())
        .build()
        .unwrap();
    assert_eq!(built.instructions.len(), 0);
    assert_eq!(built.language, InstruxConfigurationLanguage::English);
    assert_eq!(built.targets.len(), 1);
    assert_eq!(built.version.as_str(), "0.1.0");

    let value = InstruxConfigurationTargetsValue::builder()
        .output_mode(InstruxConfigurationTargetsValueOutputMode::Multiple)
        .build()
        .unwrap();
    assert_eq!(
        value.output_mode,
        InstruxConfigurationTargetsValueOutputMode::Multiple
    );
}

#[test]
fn test_defaults() {
    match defaults::instruction_item_variant0_targets() {
        instrux::model::InstructionItemVariant0Targets::Variant1(s) => assert_eq!(s, "all"),
        _ => panic!("expected the all sentinel"),
    }
    match defaults::instruction_item_variant1_targets() {
        instrux::model::InstructionItemVariant1Targets::Variant1(s) => assert_eq!(s, "all"),
        _ => panic!("expected the all sentinel"),
    }
    match defaults::instruction_item_variant2_targets() {
        instrux::model::InstructionItemVariant2Targets::Variant1(s) => assert_eq!(s, "all"),
        _ => panic!("expected the all sentinel"),
    }
    assert_eq!(
        defaults::instrux_configuration_language(),
        InstruxConfigurationLanguage::English
    );
    assert_eq!(
        defaults::instrux_configuration_targets_value_output_mode(),
        InstruxConfigurationTargetsValueOutputMode::Single
    );
}

#[test]
fn test_parse_rejects_text_without_sections() {
    let result = parse_markdown_instructions("just a paragraph\nwith no headings\n", Targets::Cline);
    assert!(result.is_err());
    assert_eq!(
        result.unwrap_err(),
        "No valid instructions found in the format file"
    );

    let only_title = parse_markdown_instructions("# Document Title\n\nintro text\n", Targets::Cline);
    assert!(only_title.is_err());
}

#[test]
fn test_parse_section_details() {
    let content = "# Title\n\n## First\n\nline one\nline two\n\n### Deep\n\nnested body\n";
    let items = parse_markdown_instructions(content, Targets::Junie).unwrap();
    assert_eq!(items.len(), 2);
    match &items[0] {
        instrux::model::InstructionItem::Variant0 {
            title,
            body,
            description,
            disable,
            targets,
        } => {
            assert_eq!(title, "First");
            assert_eq!(body, "line one\nline two");
            assert!(description.is_none());
            assert!(!disable);
            match targets {
                instrux::model::InstructionItemVariant0Targets::Variant0(list) => {
                    assert_eq!(list, &vec![Targets::Junie]);
                }
                _ => panic!("expected an explicit selector"),
            }
        }
        _ => panic!("Expected Variant0"),
    }
    match &items[1] {
        instrux::model::InstructionItem::Variant0 { title, body, .. } => {
            assert_eq!(title, "Deep");
            assert_eq!(body, "nested body");
        }
        _ => panic!("Expected Variant0"),
    }
}
