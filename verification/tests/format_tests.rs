use instrux::formats::{
    ClineConverter, ClineMultipleConverter, ClineParser, CopilotConverter,
    CopilotMultipleConverter, CopilotParser, CursorConverter, CursorParser, FormatResult,
    FromFormat, JunieConverter, JunieParser, ToFormat,
};
use instrux::model::{
    InstructionItem, InstructionItemVariant0Targets, InstruxConfiguration,
    InstruxConfigurationLanguage, InstruxConfigurationTargetsValue, InstruxConfigurationVersion,
    Targets,
};
use instrux::render::BodyFiles;

fn config_with(instructions: Vec<InstructionItem>, target: Targets) -> InstruxConfiguration {
    InstruxConfiguration {
        instructions,
        language: InstruxConfigurationLanguage::English,
        targets: vec![(target, InstruxConfigurationTargetsValue::default())],
        version: InstruxConfigurationVersion::from_str("0.1.0").expect("Valid version string"),
    }
}

fn sample_pair(specific_title: &str, specific_body: &str, target: Targets) -> Vec<InstructionItem> {
    vec![
        InstructionItem::Variant0 {
            title: "Sample Instruction".to_string(),
            body: "This is a sample instruction body.".to_string(),
            description: None,
            disable: false,
            targets: InstructionItemVariant0Targets::Variant1("all".to_string()),
        },
        InstructionItem::Variant0 {
            title: specific_title.to_string(),
            body: specific_body.to_string(),
            description: None,
            disable: false,
            targets: InstructionItemVariant0Targets::Variant0(vec![target]),
        },
    ]
}

fn multi_pair(target: Targets) -> Vec<InstructionItem> {
    vec![
        InstructionItem::Variant0 {
            title: "インストラクション1".to_string(),
            body: "本文1".to_string(),
            description: Some("説明1".to_string()),
            disable: false,
            targets: InstructionItemVariant0Targets::Variant0(vec![target]),
        },
        InstructionItem::Variant0 {
            title: "インストラクション2".to_string(),
            body: "本文2".to_string(),
            description: None,
            disable: false,
            targets: InstructionItemVariant0Targets::Variant0(vec![target]),
        },
    ]
}

fn lookup<'a>(files: &'a [(String, String)], path: &str) -> Option<&'a String> {
    files.iter().find(|p| p.0 == path).map(|p| &p.1)
}

#[test]
fn test_cline_converter_to_format() {
    let config = config_with(
        sample_pair(
            "Cline Specific Instruction",
            "This instruction is specific to Cline.",
            Targets::Cline,
        ),
        Targets::Cline,
    );
    let converter = ClineConverter {};

    let result = converter.to_format(&config, &BodyFiles::new());
    assert!(result.is_ok());

    let output = match result.unwrap() {
        FormatResult::Single(text) => text,
        _ => panic!("Expected FormatResult::Single"),
    };
    assert!(output.contains("# Cline Rules"));
    assert!(output.contains("## Sample Instruction"));
    assert!(output.contains("This is a sample instruction body."));
    assert!(output.contains("## Cline Specific Instruction"));
    assert!(output.contains("This instruction is specific to Cline."));
}

#[test]
fn test_cline_parser_from_format() {
    let sample_content = "# Cline Rules\n\n## Sample Instruction\n\nThis is a sample instruction body.\n\n## Cline Specific Instruction\n\nThis instruction is specific to Cline.\n";

    let result = ClineParser::from_format(sample_content);
    assert!(result.is_ok());

    let instructions = result.unwrap();
    assert_eq!(instructions.len(), 2);

    match &instructions[0] {
        InstructionItem::Variant0 { title, body, .. } => {
            assert_eq!(title, "Sample Instruction");
            assert!(body.contains("This is a sample instruction body."));
        }
        _ => panic!("Expected Variant0"),
    }

    match &instructions[1] {
        InstructionItem::Variant0 { title, body, .. } => {
            assert_eq!(title, "Cline Specific Instruction");
            assert!(body.contains("This instruction is specific to Cline."));
        }
        _ => panic!("Expected Variant0"),
    }
}

#[test]
fn test_cline_multiple_converter_to_format() {
    let config = config_with(multi_pair(Targets::Cline), Targets::Cline);
    let converter = ClineMultipleConverter {};

    let result = converter.to_format(&config, &BodyFiles::new());
    assert!(result.is_ok());

    let files = match result.unwrap() {
        FormatResult::Multiple(files) => files,
        _ => panic!("Expected FormatResult::Multiple"),
    };

    assert_eq!(files.len(), 2);

    let expected_files = vec![
        (
            ".clinerules/インストラクション1.md",
            "# インストラクション1\n\n本文1\n",
        ),
        (
            ".clinerules/インストラクション2.md",
            "# インストラクション2\n\n本文2\n",
        ),
    ];
    for (expected_path, expected_content) in expected_files {
        let content = lookup(&files, expected_path).expect("ファイルが存在すること");
        assert_eq!(content, expected_content);
    }
}

#[test]
fn test_copilot_converter_to_format() {
    let config = config_with(
        sample_pair(
            "Copilot Specific Instruction",
            "This instruction is specific to Copilot.",
            Targets::Copilot,
        ),
        Targets::Copilot,
    );
    let converter = CopilotConverter {};

    let result = converter.to_format(&config, &BodyFiles::new());
    assert!(result.is_ok());

    let output = match result.unwrap() {
        FormatResult::Single(text) => text,
        _ => panic!("Expected FormatResult::Single"),
    };
    assert!(output.contains("# Copilot Instructions"));
    assert!(output.contains("## Sample Instruction"));
    assert!(output.contains("This is a sample instruction body."));
    assert!(output.contains("## Copilot Specific Instruction"));
    assert!(output.contains("This instruction is specific to Copilot."));
}

#[test]
fn test_copilot_parser_from_format() {
    let sample_content = "# Copilot Instructions\n\n## Sample Instruction\n\nThis is a sample instruction body.\n\n## Copilot Specific Instruction\n\nThis instruction is specific to Copilot.\n";

    let result = CopilotParser::from_format(sample_content);
    assert!(result.is_ok());

    let instructions = result.unwrap();
    assert_eq!(instructions.len(), 2);

    match &instructions[0] {
        InstructionItem::Variant0 { title, body, .. } => {
            assert_eq!(title, "Sample Instruction");
            assert!(body.contains("This is a sample instruction body."));
        }
        _ => panic!("Expected Variant0"),
    }

    match &instructions[1] {
        InstructionItem::Variant0 { title, body, .. } => {
            assert_eq!(title, "Copilot Specific Instruction");
            assert!(body.contains("This instruction is specific to Copilot."));
        }
        _ => panic!("Expected Variant0"),
    }
}

#[test]
fn test_copilot_multiple_converter_to_format() {
    let config = config_with(multi_pair(Targets::Copilot), Targets::Copilot);
    let converter = CopilotMultipleConverter {};

    let result = converter.to_format(&config, &BodyFiles::new());
    assert!(result.is_ok());

    let files = match result.unwrap() {
        FormatResult::Multiple(files) => files,
        _ => panic!("Expected FormatResult::Multiple"),
    };

    assert_eq!(files.len(), 2);

    let expected_files = vec![
        (
            ".github/instructions/インストラクション1.instructions.md",
            "---\ndescription: 説明1\n---\n\n# インストラクション1\n\n本文1\n",
        ),
        (
            ".github/instructions/インストラクション2.instructions.md",
            "# インストラクション2\n\n本文2\n",
        ),
    ];
    for (expected_path, expected_content) in expected_files {
        let content = lookup(&files, expected_path).expect("ファイルが存在すること");
        assert_eq!(content, expected_content);
    }
}

#[test]
fn test_cursor_converter_to_format() {
    let config = config_with(
        sample_pair(
            "Cursor Specific Instruction",
            "This instruction is specific to Cursor.",
            Targets::Cursor,
        ),
        Targets::Cursor,
    );
    let converter = CursorConverter {};

    let result = converter.to_format(&config, &BodyFiles::new());
    assert!(result.is_ok());

    let output = match result.unwrap() {
        FormatResult::Single(text) => text,
        _ => panic!("Expected FormatResult::Single"),
    };
    assert!(output.contains("description: Project Rules"));
    assert!(output.contains("## Sample Instruction"));
    assert!(output.contains("This is a sample instruction body."));
    assert!(output.contains("## Cursor Specific Instruction"));
    assert!(output.contains("This instruction is specific to Cursor."));
}

#[test]
fn test_cursor_parser_from_format() {
    let sample_content = "---\ndescription: Project Rules\nglobs: \"**/*\"\nalwaysApply: true\n---\n\n## Sample Instruction\n\nThis is a sample instruction body.\n\n## Cursor Specific Instruction\n\nThis instruction is specific to Cursor.\n";

    let result = CursorParser::from_format(sample_content);
    assert!(result.is_ok());

    let instructions = result.unwrap();
    assert_eq!(instructions.len(), 2);

    match &instructions[0] {
        InstructionItem::Variant0 { title, body, .. } => {
            assert_eq!(title, "Sample Instruction");
            assert!(body.contains("This is a sample instruction body."));
        }
        _ => panic!("Expected Variant0"),
    }

    match &instructions[1] {
        InstructionItem::Variant0 { title, body, .. } => {
            assert_eq!(title, "Cursor Specific Instruction");
            assert!(body.contains("This instruction is specific to Cursor."));
        }
        _ => panic!("Expected Variant0"),
    }
}

#[test]
fn test_junie_converter_to_format() {
    let config = config_with(
        sample_pair(
            "Junie Specific Instruction",
            "This instruction is specific to Junie.",
            Targets::Junie,
        ),
        Targets::Junie,
    );
    let converter = JunieConverter {};

    let result = converter.to_format(&config, &BodyFiles::new());
    assert!(result.is_ok());

    let output = match result.unwrap() {
        FormatResult::Single(text) => text,
        _ => panic!("Expected FormatResult::Single"),
    };
    assert!(output.contains("# Junie Guidelines"));
    assert!(output.contains("## Sample Instruction"));
    assert!(output.contains("This is a sample instruction body."));
    assert!(output.contains("## Junie Specific Instruction"));
    assert!(output.contains("This instruction is specific to Junie."));
}

#[test]
fn test_junie_parser_from_format() {
    let sample_content = "# Junie Guidelines\n\n## Sample Instruction\n\nThis is a sample instruction body.\n\n## Junie Specific Instruction\n\nThis instruction is specific to Junie.\n";

    let result = JunieParser::from_format(sample_content);
    assert!(result.is_ok());

    let instructions = result.unwrap();
    assert_eq!(instructions.len(), 2);

    match &instructions[0] {
        InstructionItem::Variant0 { title, body, .. } => {
            assert_eq!(title, "Sample Instruction");
            assert!(body.contains("This is a sample instruction body."));
        }
        _ => panic!("Expected Variant0"),
    }

    match &instructions[1] {
        InstructionItem::Variant0 { title, body, .. } => {
            assert_eq!(title, "Junie Specific Instruction");
            assert!(body.contains("This instruction is specific to Junie."));
        }
        _ => panic!("Expected Variant0"),
    }
}
