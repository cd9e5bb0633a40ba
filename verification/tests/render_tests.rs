use instrux::diff::make_diff;
use instrux::formats::{CodexConverter, CodexParser, FormatResult, FromFormat, ToFormat};
use instrux::model::{
    InstructionItem, InstructionItemVariant0Targets, InstructionItemVariant2Targets,
    InstruxConfiguration, InstruxConfigurationLanguage, InstruxConfigurationTargetsValue,
    InstruxConfigurationVersion, Targets,
};
use instrux::reconcile::{backup_path_of, parent_dir_of};
use instrux::render::{collect_body_files, process_instructions_common, BodyFiles};

fn inline(title: &str, body: &str) -> InstructionItem {
    InstructionItem::Variant0 {
        title: title.to_string(),
        body: body.to_string(),
        description: None,
        disable: false,
        targets: InstructionItemVariant0Targets::Variant1("all".to_string()),
    }
}

fn config_of(instructions: Vec<InstructionItem>, target: Targets) -> InstruxConfiguration {
    InstruxConfiguration {
        instructions,
        language: InstruxConfigurationLanguage::English,
        targets: vec![(target, InstruxConfigurationTargetsValue::default())],
        version: InstruxConfigurationVersion::from_str("0.1.0").expect("valid version"),
    }
}

#[test]
fn test_nested_group_heading_levels() {
    let leaf = inline("Leaf", "Leaf body.");
    let group = InstructionItem::Variant2 {
        description: None,
        disable: false,
        instructions: vec![leaf],
        targets: InstructionItemVariant2Targets::Variant1("all".to_string()),
        title: "Group".to_string(),
    };
    let mut output = String::new();
    let result =
        process_instructions_common(&mut output, &vec![group], 0, Targets::Junie, &BodyFiles::new());
    assert!(result.is_ok());
    assert_eq!(output, "## Group\n\n### Leaf\n\nLeaf body.\n\n");
}

#[test]
fn test_empty_tree_renders_header_only() {
    let config = config_of(vec![], Targets::Codex);
    let converter = CodexConverter {};
    let output = match converter.to_format(&config, &BodyFiles::new()).unwrap() {
        FormatResult::Single(text) => text,
        _ => panic!("expected a single artifact"),
    };
    assert_eq!(output, "# Codex Instructions\n\n");

    let parsed = CodexParser::from_format(&output);
    assert!(parsed.is_err());
}

#[test]
fn test_selector_filters_other_targets() {
    let cline_only = InstructionItem::Variant0 {
        title: "Cline Only".to_string(),
        body: "body".to_string(),
        description: None,
        disable: false,
        targets: InstructionItemVariant0Targets::Variant0(vec![Targets::Cline]),
    };
    let mut output = String::new();
    let result = process_instructions_common(
        &mut output,
        &vec![cline_only],
        0,
        Targets::Junie,
        &BodyFiles::new(),
    );
    assert!(result.is_ok());
    assert_eq!(output, "");
}

#[test]
fn test_collect_body_files_walks_groups() {
    let file_ref = InstructionItem::Variant1 {
        body_file: "inner.md".to_string(),
        description: None,
        disable: false,
        targets: instrux::model::InstructionItemVariant1Targets::Variant1("all".to_string()),
        title: "Ref".to_string(),
    };
    let group = InstructionItem::Variant2 {
        description: None,
        disable: false,
        instructions: vec![file_ref],
        targets: InstructionItemVariant2Targets::Variant1("all".to_string()),
        title: "Group".to_string(),
    };
    let top_ref = InstructionItem::Variant1 {
        body_file: "outer.md".to_string(),
        description: None,
        disable: false,
        targets: instrux::model::InstructionItemVariant1Targets::Variant1("all".to_string()),
        title: "Top".to_string(),
    };
    let names = collect_body_files(&vec![group, top_ref]);
    assert_eq!(names, vec!["inner.md".to_string(), "outer.md".to_string()]);
}

#[test]
fn test_make_diff_exact_output() {
    let out = make_diff("a\nb\n", "a\nb\nc\n");
    assert_eq!(out, " a\n b\n\u{1b}[32m+c\n\u{1b}[0m");
}

#[test]
fn test_path_helpers() {
    assert_eq!(backup_path_of(&"CODEX.md".to_string()), "CODEX.md.bak");
    assert_eq!(
        backup_path_of(&".clinerules/instructions.md".to_string()),
        ".clinerules/instructions.md.bak"
    );
    assert_eq!(
        parent_dir_of(&".github/instructions/a.md".to_string()),
        Some(".github/instructions".to_string())
    );
    assert_eq!(parent_dir_of(&"AGENTS.md".to_string()), None);
}
