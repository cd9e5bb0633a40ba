//! Format adapters: one per target and output mode, each pairing a renderer
//! with a default location, and parsers for the reverse direction.

use vstd::prelude::*;
use crate::model::{
    InstructionItem, InstruxConfiguration, InstruxConfigurationTargetsValue,
    InstruxConfigurationTargetsValueOutputMode, Targets,
};
use crate::multiple::{multi_files, spec_multi_files};
use crate::parse::{
    parse_markdown_instructions, spec_instruction_matches_section, spec_kept_sections,
};
use crate::render::{
    process_instructions_common, spec_items_height, spec_render_items, BodyFile, BodyFiles,
};
use vstd::string::StringExecFns;

verus! {

broadcast use vstd::string::group_string_axioms;

/// A rendered artifact: one text, or a list of named files.
pub enum FormatResult {
    Single(String),
    Multiple(Vec<(String, String)>),
}

/// The mathematical shape of a rendered artifact.
pub enum RenderedView {
    Single(Seq<char>),
    Multiple(Seq<(Seq<char>, Seq<char>)>),
}

impl View for FormatResult {
    type V = RenderedView;

    open spec fn view(&self) -> RenderedView {
        match self {
            FormatResult::Single(s) => RenderedView::Single(s@),
            FormatResult::Multiple(files) => RenderedView::Multiple(
                files@.map_values(|p: (String, String)| (p.0@, p.1@)),
            ),
        }
    }
}

/// Converts an instruction document into one target's artifact.
pub trait ToFormat {
    /// The artifact this adapter renders a configuration to, given the
    /// referenced body files.
    spec fn spec_format(&self, config: InstruxConfiguration, bodies: Seq<BodyFile>)
        -> RenderedView;

    /// The conventional location: a file for a single artifact, a base
    /// directory for a multiple one.
    spec fn spec_default_path(&self) -> Seq<char>;

    /// Renders the configuration. Every adapter here succeeds on every
    /// configuration; the error side reports render-level failures.
    fn to_format(&self, config: &InstruxConfiguration, bodies: &BodyFiles) -> (r: Result<
        FormatResult,
        String,
    >)
        requires
            spec_items_height(config.instructions@) + 2 <= usize::MAX,
        ensures
            r is Ok && r->Ok_0@ == self.spec_format(*config, bodies.entries@),
    ;

    fn get_default_path(&self) -> (r: String)
        ensures
            r@ == self.spec_default_path(),
    ;
}

/// Reads one target's artifact back into flat instructions.
pub trait FromFormat {
    /// The importing target the recovered instructions select.
    spec fn spec_source_target() -> Targets;

    /// Splits the text into instructions; fails exactly when no section
    /// below the document title is found.
    fn from_format(content: &str) -> (r: Result<Vec<InstructionItem>, String>)
        ensures
            ({
                let kept = spec_kept_sections(content@);
                match r {
                    Ok(items) => kept.len() > 0 && items@.len() == kept.len() && forall|i: int|
                        0 <= i < kept.len() ==> spec_instruction_matches_section(
                            #[trigger] items@[i],
                            kept[i],
                            Self::spec_source_target(),
                        ),
                    Err(e) => kept.len() == 0 && e@
                        == "No valid instructions found in the format file"@,
                }
            }),
    ;
}

/// Renders a header followed by the whole tree at depth zero.
fn render_single(header: &str, config: &InstruxConfiguration, target: Targets, bodies: &BodyFiles)
    -> (r: String)
    requires
        spec_items_height(config.instructions@) + 2 <= usize::MAX,
    ensures
        r@ == header@ + spec_render_items(config.instructions@, 0, target, bodies.entries@),
{
    let mut output = String::new();
    output.append(header);
    let _ = process_instructions_common(&mut output, &config.instructions, 0, target, bodies);
    proof {
        assert(Seq::<char>::empty() + header@ =~= header@);
    }
    output
}

/// Converter for the AGENTS.md format.
pub struct AgentsMdConverter {}

impl ToFormat for AgentsMdConverter {
    open spec fn spec_format(&self, config: InstruxConfiguration, bodies: Seq<BodyFile>)
        -> RenderedView {
        RenderedView::Single(
            "# Agents Instructions\n\n"@ + spec_render_items(
                config.instructions@,
                0,
                Targets::Agentsmd,
                bodies,
            ),
        )
    }

    open spec fn spec_default_path(&self) -> Seq<char> {
        "AGENTS.md"@
    }

    fn to_format(&self, config: &InstruxConfiguration, bodies: &BodyFiles) -> (r: Result<
        FormatResult,
        String,
    >) {
        Ok(
            FormatResult::Single(
                render_single("# Agents Instructions\n\n", config, Targets::Agentsmd, bodies),
            ),
        )
    }

    fn get_default_path(&self) -> (r: String) {
        String::from_str("AGENTS.md")
    }
}

/// Parser for the AGENTS.md format.
pub struct AgentsMdParser {}

impl FromFormat for AgentsMdParser {
    open spec fn spec_source_target() -> Targets {
        Targets::Agentsmd
    }

    fn from_format(content: &str) -> (r: Result<Vec<InstructionItem>, String>) {
        parse_markdown_instructions(content, Targets::Agentsmd)
    }
}

/// Converter for the Cline format's single-file shape.
pub struct ClineConverter {}

impl ToFormat for ClineConverter {
    open spec fn spec_format(&self, config: InstruxConfiguration, bodies: Seq<BodyFile>)
        -> RenderedView {
        RenderedView::Single(
            "# Cline Rules\n\n"@ + spec_render_items(
                config.instructions@,
                0,
                Targets::Cline,
                bodies,
            ),
        )
    }

    open spec fn spec_default_path(&self) -> Seq<char> {
        ".clinerules"@
    }

    fn to_format(&self, config: &InstruxConfiguration, bodies: &BodyFiles) -> (r: Result<
        FormatResult,
        String,
    >) {
        Ok(
            FormatResult::Single(
                render_single("# Cline Rules\n\n", config, Targets::Cline, bodies),
            ),
        )
    }

    fn get_default_path(&self) -> (r: String) {
        String::from_str(".clinerules")
    }
}

/// Parser for the Cline format.
pub struct ClineParser {}

impl FromFormat for ClineParser {
    open spec fn spec_source_target() -> Targets {
        Targets::Cline
    }

    fn from_format(content: &str) -> (r: Result<Vec<InstructionItem>, String>) {
        parse_markdown_instructions(content, Targets::Cline)
    }
}

/// Converter for the Cline format's per-item-file shape.
pub struct ClineMultipleConverter {}

impl ToFormat for ClineMultipleConverter {
    open spec fn spec_format(&self, config: InstruxConfiguration, bodies: Seq<BodyFile>)
        -> RenderedView {
        RenderedView::Multiple(
            spec_multi_files(
                config.instructions@,
                Targets::Cline,
                bodies,
                ".clinerules/"@,
                ".md"@,
                false,
            ),
        )
    }

    open spec fn spec_default_path(&self) -> Seq<char> {
        ".clinerules"@
    }

    fn to_format(&self, config: &InstruxConfiguration, bodies: &BodyFiles) -> (r: Result<
        FormatResult,
        String,
    >) {
        Ok(
            FormatResult::Multiple(
                multi_files(
                    &config.instructions,
                    Targets::Cline,
                    bodies,
                    ".clinerules/",
                    ".md",
                    false,
                ),
            ),
        )
    }

    fn get_default_path(&self) -> (r: String) {
        String::from_str(".clinerules")
    }
}

/// Converter for the retired Codex format. Configuration loading rejects the
/// target, so no generation pass reaches this adapter; it stays for reading
/// and migrating old layouts.
pub struct CodexConverter {}

impl ToFormat for CodexConverter {
    open spec fn spec_format(&self, config: InstruxConfiguration, bodies: Seq<BodyFile>)
        -> RenderedView {
        RenderedView::Single(
            "# Codex Instructions\n\n"@ + spec_render_items(
                config.instructions@,
                0,
                Targets::Codex,
                bodies,
            ),
        )
    }

    open spec fn spec_default_path(&self) -> Seq<char> {
        "CODEX.md"@
    }

    fn to_format(&self, config: &InstruxConfiguration, bodies: &BodyFiles) -> (r: Result<
        FormatResult,
        String,
    >) {
        Ok(
            FormatResult::Single(
                render_single("# Codex Instructions\n\n", config, Targets::Codex, bodies),
            ),
        )
    }

    fn get_default_path(&self) -> (r: String) {
        String::from_str("CODEX.md")
    }
}

/// Parser for the retired Codex format.
pub struct CodexParser {}

impl FromFormat for CodexParser {
    open spec fn spec_source_target() -> Targets {
        Targets::Codex
    }

    fn from_format(content: &str) -> (r: Result<Vec<InstructionItem>, String>) {
        parse_markdown_instructions(content, Targets::Codex)
    }
}

/// Converter for the Copilot format's single-file shape.
pub struct CopilotConverter {}

impl ToFormat for CopilotConverter {
    open spec fn spec_format(&self, config: InstruxConfiguration, bodies: Seq<BodyFile>)
        -> RenderedView {
        RenderedView::Single(
            "# Copilot Instructions\n\n"@ + spec_render_items(
                config.instructions@,
                0,
                Targets::Copilot,
                bodies,
            ),
        )
    }

    open spec fn spec_default_path(&self) -> Seq<char> {
        ".github/copilot-instructions.md"@
    }

    fn to_format(&self, config: &InstruxConfiguration, bodies: &BodyFiles) -> (r: Result<
        FormatResult,
        String,
    >) {
        Ok(
            FormatResult::Single(
                render_single("# Copilot Instructions\n\n", config, Targets::Copilot, bodies),
            ),
        )
    }

    fn get_default_path(&self) -> (r: String) {
        String::from_str(".github/copilot-instructions.md")
    }
}

/// Parser for the Copilot format.
pub struct CopilotParser {}

impl FromFormat for CopilotParser {
    open spec fn spec_source_target() -> Targets {
        Targets::Copilot
    }

    fn from_format(content: &str) -> (r: Result<Vec<InstructionItem>, String>) {
        parse_markdown_instructions(content, Targets::Copilot)
    }
}

/// Converter for the Copilot format's per-item-file shape.
pub struct CopilotMultipleConverter {}

impl ToFormat for CopilotMultipleConverter {
    open spec fn spec_format(&self, config: InstruxConfiguration, bodies: Seq<BodyFile>)
        -> RenderedView {
        RenderedView::Multiple(
            spec_multi_files(
                config.instructions@,
                Targets::Copilot,
                bodies,
                ".github/instructions/"@,
                ".instructions.md"@,
                true,
            ),
        )
    }

    open spec fn spec_default_path(&self) -> Seq<char> {
        ".github/instructions"@
    }

    fn to_format(&self, config: &InstruxConfiguration, bodies: &BodyFiles) -> (r: Result<
        FormatResult,
        String,
    >) {
        Ok(
            FormatResult::Multiple(
                multi_files(
                    &config.instructions,
                    Targets::Copilot,
                    bodies,
                    ".github/instructions/",
                    ".instructions.md",
                    true,
                ),
            ),
        )
    }

    fn get_default_path(&self) -> (r: String) {
        String::from_str(".github/instructions")
    }
}

/// Converter for the Cursor format.
pub struct CursorConverter {}

impl ToFormat for CursorConverter {
    open spec fn spec_format(&self, config: InstruxConfiguration, bodies: Seq<BodyFile>)
        -> RenderedView {
        RenderedView::Single(
            "---\ndescription: Project Rules\nglobs: \"**/*\"\nalwaysApply: true\n---\n\n"@
                + spec_render_items(config.instructions@, 0, Targets::Cursor, bodies),
        )
    }

    open spec fn spec_default_path(&self) -> Seq<char> {
        ".cursor/rules/rule.mdc"@
    }

    fn to_format(&self, config: &InstruxConfiguration, bodies: &BodyFiles) -> (r: Result<
        FormatResult,
        String,
    >) {
        Ok(
            FormatResult::Single(
                render_single(
                    "---\ndescription: Project Rules\nglobs: \"**/*\"\nalwaysApply: true\n---\n\n",
                    config,
                    Targets::Cursor,
                    bodies,
                ),
            ),
        )
    }

    fn get_default_path(&self) -> (r: String) {
        String::from_str(".cursor/rules/rule.mdc")
    }
}

/// Parser for the Cursor format.
pub struct CursorParser {}

impl FromFormat for CursorParser {
    open spec fn spec_source_target() -> Targets {
        Targets::Cursor
    }

    fn from_format(content: &str) -> (r: Result<Vec<InstructionItem>, String>) {
        parse_markdown_instructions(content, Targets::Cursor)
    }
}

/// Converter for the Junie format.
pub struct JunieConverter {}

impl ToFormat for JunieConverter {
    open spec fn spec_format(&self, config: InstruxConfiguration, bodies: Seq<BodyFile>)
        -> RenderedView {
        RenderedView::Single(
            "# Junie Guidelines\n\n"@ + spec_render_items(
                config.instructions@,
                0,
                Targets::Junie,
                bodies,
            ),
        )
    }

    open spec fn spec_default_path(&self) -> Seq<char> {
        ".junie/guidelines.md"@
    }

    fn to_format(&self, config: &InstruxConfiguration, bodies: &BodyFiles) -> (r: Result<
        FormatResult,
        String,
    >) {
        Ok(
            FormatResult::Single(
                render_single("# Junie Guidelines\n\n", config, Targets::Junie, bodies),
            ),
        )
    }

    fn get_default_path(&self) -> (r: String) {
        String::from_str(".junie/guidelines.md")
    }
}

/// Parser for the Junie format.
pub struct JunieParser {}

impl FromFormat for JunieParser {
    open spec fn spec_source_target() -> Targets {
        Targets::Junie
    }

    fn from_format(content: &str) -> (r: Result<Vec<InstructionItem>, String>) {
        parse_markdown_instructions(content, Targets::Junie)
    }
}

/// The adapter that a (target, output mode) pair resolves to.
pub enum Converter {
    AgentsMd(AgentsMdConverter),
    Cline(ClineConverter),
    ClineMultiple(ClineMultipleConverter),
    Copilot(CopilotConverter),
    CopilotMultiple(CopilotMultipleConverter),
    Cursor(CursorConverter),
    Junie(JunieConverter),
}

impl Converter {
    /// The artifact this converter renders a configuration to.
    pub open spec fn spec_format(&self, config: InstruxConfiguration, bodies: Seq<BodyFile>)
        -> RenderedView {
        match self {
            Converter::AgentsMd(c) => c.spec_format(config, bodies),
            Converter::Cline(c) => c.spec_format(config, bodies),
            Converter::ClineMultiple(c) => c.spec_format(config, bodies),
            Converter::Copilot(c) => c.spec_format(config, bodies),
            Converter::CopilotMultiple(c) => c.spec_format(config, bodies),
            Converter::Cursor(c) => c.spec_format(config, bodies),
            Converter::Junie(c) => c.spec_format(config, bodies),
        }
    }

    /// The converter's conventional output location.
    pub open spec fn spec_default_path(&self) -> Seq<char> {
        match self {
            Converter::AgentsMd(c) => c.spec_default_path(),
            Converter::Cline(c) => c.spec_default_path(),
            Converter::ClineMultiple(c) => c.spec_default_path(),
            Converter::Copilot(c) => c.spec_default_path(),
            Converter::CopilotMultiple(c) => c.spec_default_path(),
            Converter::Cursor(c) => c.spec_default_path(),
            Converter::Junie(c) => c.spec_default_path(),
        }
    }

    pub fn to_format(&self, config: &InstruxConfiguration, bodies: &BodyFiles) -> (r: Result<
        FormatResult,
        String,
    >)
        requires
            spec_items_height(config.instructions@) + 2 <= usize::MAX,
        ensures
            r is Ok && r->Ok_0@ == self.spec_format(*config, bodies.entries@),
    {
        match self {
            Converter::AgentsMd(c) => c.to_format(config, bodies),
            Converter::Cline(c) => c.to_format(config, bodies),
            Converter::ClineMultiple(c) => c.to_format(config, bodies),
            Converter::Copilot(c) => c.to_format(config, bodies),
            Converter::CopilotMultiple(c) => c.to_format(config, bodies),
            Converter::Cursor(c) => c.to_format(config, bodies),
            Converter::Junie(c) => c.to_format(config, bodies),
        }
    }

    pub fn get_default_path(&self) -> (r: String)
        ensures
            r@ == self.spec_default_path(),
    {
        match self {
            Converter::AgentsMd(c) => c.get_default_path(),
            Converter::Cline(c) => c.get_default_path(),
            Converter::ClineMultiple(c) => c.get_default_path(),
            Converter::Copilot(c) => c.get_default_path(),
            Converter::CopilotMultiple(c) => c.get_default_path(),
            Converter::Cursor(c) => c.get_default_path(),
            Converter::Junie(c) => c.get_default_path(),
        }
    }

    /// Whether this converter produces a multiple-file artifact.
    pub open spec fn spec_is_multiple(&self) -> bool {
        match self {
            Converter::ClineMultiple(_) => true,
            Converter::CopilotMultiple(_) => true,
            _ => false,
        }
    }
}

/// The adapter for a (target, output mode) pair, or nothing when the target
/// has no per-item-file shape.
pub open spec fn spec_converter_for(
    target: Targets,
    mode: InstruxConfigurationTargetsValueOutputMode,
) -> Option<Converter> {
    match target {
        Targets::Copilot => if mode is Multiple {
            Some(Converter::CopilotMultiple(CopilotMultipleConverter {}))
        } else {
            Some(Converter::Copilot(CopilotConverter {}))
        },
        Targets::Cline => if mode is Multiple {
            Some(Converter::ClineMultiple(ClineMultipleConverter {}))
        } else {
            Some(Converter::Cline(ClineConverter {}))
        },
        Targets::Cursor => if mode is Multiple {
            None
        } else {
            Some(Converter::Cursor(CursorConverter {}))
        },
        Targets::Junie => if mode is Multiple {
            None
        } else {
            Some(Converter::Junie(JunieConverter {}))
        },
        Targets::Agentsmd => if mode is Multiple {
            None
        } else {
            Some(Converter::AgentsMd(AgentsMdConverter {}))
        },
        Targets::Codex => None,
    }
}

/// Resolves the adapter for a declared target. The retired target never
/// reaches this point: loading rejects it. Asking for the per-item-file
/// shape of a target that has none is a configuration error.
pub fn get_converter(target: &Targets, target_config: &InstruxConfigurationTargetsValue) -> (r:
    Result<Converter, String>)
    requires
        !(target is Codex),
    ensures
        match spec_converter_for(*target, target_config.output_mode) {
            Some(c) => r is Ok && r->Ok_0 == c,
            None => r is Err && r->Err_0@
                == "multiple output mode is not supported for this target"@,
        },
{
    let multiple = match target_config.output_mode {
        InstruxConfigurationTargetsValueOutputMode::Multiple => true,
        InstruxConfigurationTargetsValueOutputMode::Single => false,
    };
    match target {
        Targets::Copilot => if multiple {
            Ok(Converter::CopilotMultiple(CopilotMultipleConverter {}))
        } else {
            Ok(Converter::Copilot(CopilotConverter {}))
        },
        Targets::Cline => if multiple {
            Ok(Converter::ClineMultiple(ClineMultipleConverter {}))
        } else {
            Ok(Converter::Cline(ClineConverter {}))
        },
        Targets::Cursor => if multiple {
            Err("multiple output mode is not supported for this target".to_owned())
        } else {
            Ok(Converter::Cursor(CursorConverter {}))
        },
        Targets::Junie => if multiple {
            Err("multiple output mode is not supported for this target".to_owned())
        } else {
            Ok(Converter::Junie(JunieConverter {}))
        },
        Targets::Agentsmd => if multiple {
            Err("multiple output mode is not supported for this target".to_owned())
        } else {
            Ok(Converter::AgentsMd(AgentsMdConverter {}))
        },
        // Unreachable under this function's precondition; the arm only
        // completes the match.
        Targets::Codex => Err("multiple output mode is not supported for this target".to_owned()),
    }
}

/// Reads a target-format file back into flat instructions through that
/// target's parser. The retired target never reaches this point.
pub fn from_format(target: &Targets, content: &str) -> (r: Result<Vec<InstructionItem>, String>)
    requires
        !(target is Codex),
    ensures
        ({
            let kept = spec_kept_sections(content@);
            match r {
                Ok(items) => kept.len() > 0 && items@.len() == kept.len() && forall|i: int|
                    0 <= i < kept.len() ==> spec_instruction_matches_section(
                        #[trigger] items@[i],
                        kept[i],
                        *target,
                    ),
                Err(e) => kept.len() == 0 && e@
                    == "No valid instructions found in the format file"@,
            }
        }),
{
    match target {
        Targets::Copilot => CopilotParser::from_format(content),
        Targets::Cline => ClineParser::from_format(content),
        Targets::Cursor => CursorParser::from_format(content),
        Targets::Junie => JunieParser::from_format(content),
        Targets::Agentsmd => AgentsMdParser::from_format(content),
        Targets::Codex => CodexParser::from_format(content),
    }
}

/// Rendering is idempotent: the artifact is a function of the tree, the
/// adapter and the body files alone, so rendering the same tree twice for
/// the same target yields byte-identical output.
pub proof fn lemma_render_idempotent<C: ToFormat>(
    converter: &C,
    config: InstruxConfiguration,
    bodies: Seq<BodyFile>,
    r1: RenderedView,
    r2: RenderedView,
)
    requires
        r1 == converter.spec_format(config, bodies),
        r2 == converter.spec_format(config, bodies),
    ensures
        r1 == r2,
{
}

} // verus!
