use instrux::diff::{diff_artifact, make_diff};
use instrux::formats::{AgentsMdParser, FormatResult, FromFormat, ToFormat};
use instrux::generate::{render_all_targets, validate_config};
use instrux::model::{
    InstructionItem, InstructionItemVariant0Targets, InstructionItemVariant2Targets,
    InstruxConfiguration, InstruxConfigurationLanguage, InstruxConfigurationTargetsValue,
    InstruxConfigurationTargetsValueOutputMode, InstruxConfigurationVersion, Targets,
};
use instrux::reconcile::{
    process_single_file, reconcile_artifact, DiskState, FsAction, ReconcileDecision,
};
use instrux::render::BodyFiles;
use instrux::watch::{watch_continues_after, watch_pass_flags, watch_should_regenerate, WatchEvent};
use instrux::common::TargetsChecker;

fn inline(title: &str, body: &str) -> InstructionItem {
    InstructionItem::Variant0 {
        title: title.to_string(),
        body: body.to_string(),
        description: None,
        disable: false,
        targets: InstructionItemVariant0Targets::Variant1("all".to_string()),
    }
}

fn config_of(
    instructions: Vec<InstructionItem>,
    targets: Vec<(Targets, InstruxConfigurationTargetsValue)>,
) -> InstruxConfiguration {
    InstruxConfiguration {
        instructions,
        language: InstruxConfigurationLanguage::English,
        targets,
        version: InstruxConfigurationVersion::from_str("0.1.0").expect("valid version"),
    }
}

/// Replays a plan against an in-memory disk of (path, content) pairs.
fn apply_actions(disk: &mut Vec<(String, String)>, actions: &[FsAction]) {
    for action in actions {
        match action {
            FsAction::CreateDirAll { .. } => {}
            FsAction::CopyFile { from, to } => {
                let content = disk
                    .iter()
                    .find(|e| &e.0 == from)
                    .map(|e| e.1.clone())
                    .expect("copy source exists");
                disk.retain(|e| &e.0 != to);
                disk.push((to.clone(), content));
            }
            FsAction::RemoveFile { path } => {
                disk.retain(|e| &e.0 != path);
            }
            FsAction::WriteFile { path, content } => {
                disk.retain(|e| &e.0 != path);
                disk.push((path.clone(), content.clone()));
            }
        }
    }
}

fn disk_get<'a>(disk: &'a [(String, String)], path: &str) -> Option<&'a String> {
    disk.iter().find(|e| e.0 == path).map(|e| &e.1)
}

fn count_occurrences(haystack: &str, needle: &str) -> usize {
    let mut count = 0;
    let mut rest = haystack;
    while let Some(pos) = rest.find(needle) {
        count += 1;
        rest = &rest[pos + needle.len()..];
    }
    count
}

#[test]
fn test_selector_membership() {
    let in_set = InstructionItemVariant0Targets::Variant0(vec![Targets::Cline]);
    assert!(in_set.is_for_target(Targets::Cline));
    assert!(!in_set.is_for_target(Targets::Copilot));
    let empty = InstructionItemVariant0Targets::Variant0(vec![]);
    assert!(!empty.is_for_target(Targets::Cline));
    let all = InstructionItemVariant0Targets::Variant1("all".to_string());
    assert!(all.is_for_target(Targets::Cline));
    assert!(all.is_for_target(Targets::Agentsmd));
    let other = InstructionItemVariant0Targets::Variant1("some".to_string());
    assert!(!other.is_for_target(Targets::Cline));
}

#[test]
fn test_disabled_group_prunes_descendants() {
    let child = inline("Child Title", "Child body.");
    let group = InstructionItem::Variant2 {
        description: None,
        disable: true,
        instructions: vec![child],
        targets: InstructionItemVariant2Targets::Variant1("all".to_string()),
        title: "Disabled Group".to_string(),
    };
    let config = config_of(
        vec![group],
        vec![(Targets::Cline, InstruxConfigurationTargetsValue::default())],
    );
    let converter = instrux::formats::ClineConverter {};
    let output = match converter.to_format(&config, &BodyFiles::new()).unwrap() {
        FormatResult::Single(text) => text,
        _ => panic!("expected a single artifact"),
    };
    assert_eq!(output, "# Cline Rules\n\n");
    assert!(!output.contains("Disabled Group"));
    assert!(!output.contains("Child Title"));
    assert!(!output.contains("Child body."));
}

#[test]
fn test_render_is_idempotent() {
    let config = config_of(
        vec![inline("One", "First body."), inline("Two", "Second body.")],
        vec![(Targets::Junie, InstruxConfigurationTargetsValue::default())],
    );
    let converter = instrux::formats::JunieConverter {};
    let first = match converter.to_format(&config, &BodyFiles::new()).unwrap() {
        FormatResult::Single(text) => text,
        _ => panic!("expected a single artifact"),
    };
    let second = match converter.to_format(&config, &BodyFiles::new()).unwrap() {
        FormatResult::Single(text) => text,
        _ => panic!("expected a single artifact"),
    };
    assert_eq!(first, second);
}

#[test]
fn test_overwrite_identical_is_no_change() {
    let path = "OUT.md".to_string();
    let content = "same content\n".to_string();
    let existing = Some(content.clone());
    let (decision, actions) = process_single_file(&path, &content, &existing, true, false);
    assert_eq!(decision, ReconcileDecision::NoChange);
    assert_eq!(actions.len(), 0);
}

#[test]
fn test_overwrite_differing_backs_up_prior_content() {
    let path = "OUT.md".to_string();
    let content = "new content\n".to_string();
    let existing = Some("old content\n".to_string());
    let (decision, actions) = process_single_file(&path, &content, &existing, true, false);
    assert_eq!(decision, ReconcileDecision::OverwriteWithBackup);
    let backups = actions
        .iter()
        .filter(|a| matches!(a, FsAction::CopyFile { .. }))
        .count();
    assert_eq!(backups, 1);
    let mut disk = vec![("OUT.md".to_string(), "old content\n".to_string())];
    apply_actions(&mut disk, &actions);
    assert_eq!(disk_get(&disk, "OUT.md.bak").unwrap(), "old content\n");
    assert_eq!(disk_get(&disk, "OUT.md").unwrap(), "new content\n");
}

#[test]
fn test_force_never_backs_up() {
    let path = "OUT.md".to_string();
    let content = "new content\n".to_string();
    let existing = Some("old content\n".to_string());
    let (decision, actions) = process_single_file(&path, &content, &existing, false, true);
    assert_eq!(decision, ReconcileDecision::OverwriteForced);
    assert!(actions
        .iter()
        .all(|a| !matches!(a, FsAction::CopyFile { .. })));
    let mut disk = vec![("OUT.md".to_string(), "old content\n".to_string())];
    apply_actions(&mut disk, &actions);
    assert!(disk_get(&disk, "OUT.md.bak").is_none());
    assert_eq!(disk_get(&disk, "OUT.md").unwrap(), "new content\n");
}

#[test]
fn test_skip_when_no_flags() {
    let path = "OUT.md".to_string();
    let content = "new content\n".to_string();
    let existing = Some("old content\n".to_string());
    let (decision, actions) = process_single_file(&path, &content, &existing, false, false);
    assert_eq!(decision, ReconcileDecision::Skip);
    assert_eq!(actions.len(), 0);
}

#[test]
fn test_generate_two_single_targets() {
    let config = config_of(
        vec![inline("Test Project", "This is a code instruction.")],
        vec![
            (Targets::Agentsmd, InstruxConfigurationTargetsValue::default()),
            (Targets::Cline, InstruxConfigurationTargetsValue::default()),
        ],
    );
    assert!(validate_config(&config).is_ok());
    let rendered = render_all_targets(&config, &BodyFiles::new()).unwrap();
    assert_eq!(rendered.len(), 2);

    let mut disk: Vec<(String, String)> = Vec::new();
    for entry in &rendered {
        let (decisions, actions) = reconcile_artifact(
            &entry.artifact,
            &entry.location,
            false,
            false,
            &DiskState::new(),
            false,
            false,
        );
        assert!(decisions
            .iter()
            .all(|d| d.1 == ReconcileDecision::Create));
        apply_actions(&mut disk, &actions);
    }
    assert_eq!(disk.len(), 2);
    for path in ["AGENTS.md", ".clinerules"] {
        let content = disk_get(&disk, path).expect("output file exists");
        assert_eq!(count_occurrences(content, "Test Project"), 1);
        assert_eq!(count_occurrences(content, "This is a code instruction."), 1);
    }
}

#[test]
fn test_multiple_mode_two_independent_files() {
    let config = config_of(
        vec![inline("Test1", "Body one."), inline("Test2", "Body two.")],
        vec![(
            Targets::Cline,
            InstruxConfigurationTargetsValue {
                output_mode: InstruxConfigurationTargetsValueOutputMode::Multiple,
            },
        )],
    );
    let rendered = render_all_targets(&config, &BodyFiles::new()).unwrap();
    assert_eq!(rendered.len(), 1);
    assert!(rendered[0].multiple);

    let mut disk: Vec<(String, String)> = Vec::new();
    let (_, actions) = reconcile_artifact(
        &rendered[0].artifact,
        &rendered[0].location,
        false,
        false,
        &DiskState::new(),
        false,
        false,
    );
    apply_actions(&mut disk, &actions);
    let one = disk_get(&disk, ".clinerules/Test1.md").expect("first file exists");
    let two = disk_get(&disk, ".clinerules/Test2.md").expect("second file exists");
    assert!(one.contains("Test1") && one.contains("Body one."));
    assert!(!one.contains("Test2") && !one.contains("Body two."));
    assert!(two.contains("Test2") && two.contains("Body two."));
    assert!(!two.contains("Test1") && !two.contains("Body one."));
}

#[test]
fn test_multiple_mode_base_path_is_file_overwrite() {
    let config = config_of(
        vec![inline("Test1", "Body one."), inline("Test2", "Body two.")],
        vec![(
            Targets::Cline,
            InstruxConfigurationTargetsValue {
                output_mode: InstruxConfigurationTargetsValueOutputMode::Multiple,
            },
        )],
    );
    let rendered = render_all_targets(&config, &BodyFiles::new()).unwrap();

    let mut disk = vec![(".clinerules".to_string(), "legacy single output\n".to_string())];
    let (_, actions) = reconcile_artifact(
        &rendered[0].artifact,
        &rendered[0].location,
        true,
        true,
        &DiskState::new(),
        true,
        false,
    );
    apply_actions(&mut disk, &actions);
    assert_eq!(
        disk_get(&disk, ".clinerules.bak").expect("backup exists"),
        "legacy single output\n"
    );
    assert!(disk_get(&disk, ".clinerules").is_none());
    assert!(disk_get(&disk, ".clinerules/Test1.md").is_some());
    assert!(disk_get(&disk, ".clinerules/Test2.md").is_some());
}

#[test]
fn test_diff_of_missing_file_is_all_additions() {
    let config = config_of(
        vec![inline("Test Project", "This is a code instruction.")],
        vec![(Targets::Agentsmd, InstruxConfigurationTargetsValue::default())],
    );
    let rendered = render_all_targets(&config, &BodyFiles::new()).unwrap();
    let diff = diff_artifact(&rendered[0].artifact, &rendered[0].location, &DiskState::new());
    assert!(!diff.is_empty());
    let expected_lines = match &rendered[0].artifact {
        FormatResult::Single(text) => text.lines().count(),
        _ => panic!("expected a single artifact"),
    };
    assert_eq!(count_occurrences(&diff, "\u{1b}[32m+"), expected_lines);
    assert!(!diff.contains("\u{1b}[31m-"));
}

#[test]
fn test_make_diff_shows_insertion() {
    let current = "a\nb\n";
    let expected = "a\nb\nc\n";
    let out = make_diff(current, expected);
    assert!(out.contains("+c"));
}

#[test]
fn test_round_trip_recovers_titles_and_bodies() {
    let config = config_of(
        vec![
            inline("First Section", "Alpha body line."),
            inline("Second Section", "Beta body line one.\nBeta body line two."),
        ],
        vec![(Targets::Agentsmd, InstruxConfigurationTargetsValue::default())],
    );
    let converter = instrux::formats::AgentsMdConverter {};
    let rendered = match converter.to_format(&config, &BodyFiles::new()).unwrap() {
        FormatResult::Single(text) => text,
        _ => panic!("expected a single artifact"),
    };
    let recovered = AgentsMdParser::from_format(&rendered).unwrap();
    assert_eq!(recovered.len(), 2);
    let expected = [
        ("First Section", "Alpha body line."),
        ("Second Section", "Beta body line one.\nBeta body line two."),
    ];
    for (item, (title, body)) in recovered.iter().zip(expected.iter()) {
        match item {
            InstructionItem::Variant0 {
                title: t, body: b, ..
            } => {
                assert_eq!(t, title);
                assert_eq!(b, body);
            }
            _ => panic!("Expected Variant0"),
        }
    }
}

#[test]
fn test_validate_rejects_retired_target() {
    let config = config_of(
        vec![inline("A", "B")],
        vec![(Targets::Codex, InstruxConfigurationTargetsValue::default())],
    );
    let result = validate_config(&config);
    assert!(result.is_err());
    assert_eq!(
        result.unwrap_err(),
        "Codex is deprecated. Use agentsmd (AGENTS.md) instead."
    );
}

#[test]
fn test_multiple_mode_unsupported_target_errors() {
    let result = instrux::formats::get_converter(
        &Targets::Cursor,
        &InstruxConfigurationTargetsValue {
            output_mode: InstruxConfigurationTargetsValueOutputMode::Multiple,
        },
    );
    match result {
        Err(e) => assert_eq!(e, "multiple output mode is not supported for this target"),
        Ok(_) => panic!("expected a configuration error"),
    }
}

#[test]
fn test_missing_body_file_renders_placeholder() {
    let item = InstructionItem::Variant1 {
        body_file: "notes.md".to_string(),
        description: None,
        disable: false,
        targets: instrux::model::InstructionItemVariant1Targets::Variant1("all".to_string()),
        title: "From File".to_string(),
    };
    let config = config_of(
        vec![item],
        vec![(Targets::Junie, InstruxConfigurationTargetsValue::default())],
    );
    let converter = instrux::formats::JunieConverter {};
    let output = match converter.to_format(&config, &BodyFiles::new()).unwrap() {
        FormatResult::Single(text) => text,
        _ => panic!("expected a single artifact"),
    };
    assert!(output.contains("<!-- Content from file: notes.md (not found) -->"));
}

#[test]
fn test_body_file_content_is_rendered() {
    let item = InstructionItem::Variant1 {
        body_file: "notes.md".to_string(),
        description: None,
        disable: false,
        targets: instrux::model::InstructionItemVariant1Targets::Variant1("all".to_string()),
        title: "From File".to_string(),
    };
    let config = config_of(
        vec![item],
        vec![(Targets::Junie, InstruxConfigurationTargetsValue::default())],
    );
    let mut bodies = BodyFiles::new();
    bodies.push("notes.md".to_string(), Some("File body text.".to_string()));
    let converter = instrux::formats::JunieConverter {};
    let output = match converter.to_format(&config, &bodies).unwrap() {
        FormatResult::Single(text) => text,
        _ => panic!("expected a single artifact"),
    };
    assert!(output.contains("## From File"));
    assert!(output.contains("File body text."));
    assert!(!output.contains("not found"));
}

#[test]
fn test_watch_decisions() {
    assert!(watch_should_regenerate(&WatchEvent::Modified));
    assert!(!watch_should_regenerate(&WatchEvent::Other));
    assert!(!watch_should_regenerate(&WatchEvent::Timeout));
    let flags = watch_pass_flags();
    assert!(!flags.dry_run && !flags.overwrite && !flags.force);
    assert!(watch_continues_after(true));
    assert!(watch_continues_after(false));
}
