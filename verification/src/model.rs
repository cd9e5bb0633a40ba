//! The instruction document model: targets, selectors, instruction nodes and
//! the configuration that groups them.

use vstd::prelude::*;
use crate::text::str_equal;

verus! {

broadcast use vstd::string::group_string_axioms;

/// Error from a failed conversion of a plain value into a model type.
#[derive(Clone, Debug)]
pub struct ConversionError {
    pub msg: String,
}

impl ConversionError {
    pub fn new(msg: &str) -> (r: ConversionError)
        ensures
            r.msg@ == msg@,
    {
        ConversionError { msg: msg.to_owned() }
    }

    /// The diagnostic text carried by this error.
    pub fn message(&self) -> (r: &str)
        ensures
            r@ == self.msg@,
    {
        self.msg.as_str()
    }
}

/// AI coding tool format to generate. `Codex` is retired: configuration
/// loading rejects it before any rendering can see it.
#[derive(Clone, Copy, PartialEq, Eq, Structural, Debug)]
pub enum Targets {
    Copilot,
    Cline,
    Cursor,
    Junie,
    Codex,
    Agentsmd,
}

/// The configuration-text name of each target.
pub open spec fn spec_target_name(t: Targets) -> Seq<char> {
    match t {
        Targets::Copilot => "copilot"@,
        Targets::Cline => "cline"@,
        Targets::Cursor => "cursor"@,
        Targets::Junie => "junie"@,
        Targets::Codex => "codex"@,
        Targets::Agentsmd => "agentsmd"@,
    }
}

/// The target whose configuration-text name is `s`, if any.
pub open spec fn spec_target_of_name(s: Seq<char>) -> Option<Targets> {
    if s == "copilot"@ {
        Some(Targets::Copilot)
    } else if s == "cline"@ {
        Some(Targets::Cline)
    } else if s == "cursor"@ {
        Some(Targets::Cursor)
    } else if s == "junie"@ {
        Some(Targets::Junie)
    } else if s == "codex"@ {
        Some(Targets::Codex)
    } else if s == "agentsmd"@ {
        Some(Targets::Agentsmd)
    } else {
        None
    }
}

impl Targets {
    /// The identifier of this target as configuration text writes it.
    pub fn as_str(&self) -> (r: &'static str)
        ensures
            r@ == spec_target_name(*self),
    {
        match self {
            Targets::Copilot => "copilot",
            Targets::Cline => "cline",
            Targets::Cursor => "cursor",
            Targets::Junie => "junie",
            Targets::Codex => "codex",
            Targets::Agentsmd => "agentsmd",
        }
    }

    /// Reads a target from its configuration-text name.
    pub fn from_str(s: &str) -> (r: Result<Targets, ConversionError>)
        ensures
            match spec_target_of_name(s@) {
                Some(t) => r is Ok && r->Ok_0 == t,
                None => r is Err && r->Err_0.msg@ == "invalid value"@,
            },
    {
        if str_equal(s, "copilot") {
            Ok(Targets::Copilot)
        } else if str_equal(s, "cline") {
            Ok(Targets::Cline)
        } else if str_equal(s, "cursor") {
            Ok(Targets::Cursor)
        } else if str_equal(s, "junie") {
            Ok(Targets::Junie)
        } else if str_equal(s, "codex") {
            Ok(Targets::Codex)
        } else if str_equal(s, "agentsmd") {
            Ok(Targets::Agentsmd)
        } else {
            Err(ConversionError::new("invalid value"))
        }
    }
}

/// Human language for generated instructions.
#[derive(Clone, Copy, PartialEq, Eq, Structural, Debug)]
pub enum InstruxConfigurationLanguage {
    English,
    Japanese,
}

impl InstruxConfigurationLanguage {
    pub fn as_str(&self) -> (r: &'static str)
        ensures
            (*self is English ==> r@ == "English"@) && (*self is Japanese ==> r@ == "Japanese"@),
    {
        match self {
            InstruxConfigurationLanguage::English => "English",
            InstruxConfigurationLanguage::Japanese => "Japanese",
        }
    }

    pub fn from_str(s: &str) -> (r: Result<InstruxConfigurationLanguage, ConversionError>)
        ensures
            s@ == "English"@ ==> r is Ok && r->Ok_0 is English,
            s@ == "Japanese"@ ==> r is Ok && r->Ok_0 is Japanese,
            s@ != "English"@ && s@ != "Japanese"@ ==> r is Err && r->Err_0.msg@
                == "invalid value"@,
    {
        proof {
            reveal_strlit("English");
            reveal_strlit("Japanese");
            assert("English"@.len() == 7);
            assert("Japanese"@.len() == 8);
        }
        if str_equal(s, "English") {
            Ok(InstruxConfigurationLanguage::English)
        } else if str_equal(s, "Japanese") {
            Ok(InstruxConfigurationLanguage::Japanese)
        } else {
            Err(ConversionError::new("invalid value"))
        }
    }
}

impl Default for InstruxConfigurationLanguage {
    fn default() -> (r: Self)
        ensures
            r is English,
    {
        InstruxConfigurationLanguage::English
    }
}

/// Whether a target's output goes to a single file or to one file per
/// top-level instruction.
#[derive(Clone, Copy, PartialEq, Eq, Structural, Debug)]
pub enum InstruxConfigurationTargetsValueOutputMode {
    Single,
    Multiple,
}

impl InstruxConfigurationTargetsValueOutputMode {
    pub fn as_str(&self) -> (r: &'static str)
        ensures
            (*self is Single ==> r@ == "single"@) && (*self is Multiple ==> r@ == "multiple"@),
    {
        match self {
            InstruxConfigurationTargetsValueOutputMode::Single => "single",
            InstruxConfigurationTargetsValueOutputMode::Multiple => "multiple",
        }
    }

    pub fn from_str(s: &str) -> (r: Result<
        InstruxConfigurationTargetsValueOutputMode,
        ConversionError,
    >)
        ensures
            s@ == "single"@ ==> r is Ok && r->Ok_0 is Single,
            s@ == "multiple"@ ==> r is Ok && r->Ok_0 is Multiple,
            s@ != "single"@ && s@ != "multiple"@ ==> r is Err && r->Err_0.msg@
                == "invalid value"@,
    {
        proof {
            reveal_strlit("single");
            reveal_strlit("multiple");
            assert("single"@.len() == 6);
            assert("multiple"@.len() == 8);
        }
        if str_equal(s, "single") {
            Ok(InstruxConfigurationTargetsValueOutputMode::Single)
        } else if str_equal(s, "multiple") {
            Ok(InstruxConfigurationTargetsValueOutputMode::Multiple)
        } else {
            Err(ConversionError::new("invalid value"))
        }
    }
}

impl Default for InstruxConfigurationTargetsValueOutputMode {
    fn default() -> (r: Self)
        ensures
            r is Single,
    {
        InstruxConfigurationTargetsValueOutputMode::Single
    }
}

/// Per-target settings attached to a declared target.
#[derive(Clone, Debug)]
pub struct InstruxConfigurationTargetsValue {
    pub output_mode: InstruxConfigurationTargetsValueOutputMode,
}

impl Default for InstruxConfigurationTargetsValue {
    fn default() -> (r: Self)
        ensures
            r.output_mode is Single,
    {
        InstruxConfigurationTargetsValue {
            output_mode: InstruxConfigurationTargetsValueOutputMode::Single,
        }
    }
}

/// Target selector of an inline instruction: an explicit list of targets or
/// the sentinel `"all"`.
#[derive(Clone, Debug)]
pub enum InstructionItemVariant0Targets {
    Variant0(Vec<Targets>),
    Variant1(String),
}

/// Target selector of a file-reference instruction.
#[derive(Clone, Debug)]
pub enum InstructionItemVariant1Targets {
    Variant0(Vec<Targets>),
    Variant1(String),
}

/// Target selector of a group instruction.
#[derive(Clone, Debug)]
pub enum InstructionItemVariant2Targets {
    Variant0(Vec<Targets>),
    Variant1(String),
}

impl Default for InstructionItemVariant0Targets {
    fn default() -> (r: Self)
        ensures
            r is Variant1 && r->Variant1_0@ == "all"@,
    {
        InstructionItemVariant0Targets::Variant1("all".to_owned())
    }
}

impl Default for InstructionItemVariant1Targets {
    fn default() -> (r: Self)
        ensures
            r is Variant1 && r->Variant1_0@ == "all"@,
    {
        InstructionItemVariant1Targets::Variant1("all".to_owned())
    }
}

impl Default for InstructionItemVariant2Targets {
    fn default() -> (r: Self)
        ensures
            r is Variant1 && r->Variant1_0@ == "all"@,
    {
        InstructionItemVariant2Targets::Variant1("all".to_owned())
    }
}

/// One node of the instruction document: inline text, a reference to an
/// external body file, or a group of nested instructions.
#[derive(Debug)]
pub enum InstructionItem {
    Variant0 {
        body: String,
        description: Option<String>,
        disable: bool,
        targets: InstructionItemVariant0Targets,
        title: String,
    },
    Variant1 {
        body_file: String,
        description: Option<String>,
        disable: bool,
        targets: InstructionItemVariant1Targets,
        title: String,
    },
    Variant2 {
        description: Option<String>,
        disable: bool,
        instructions: Vec<InstructionItem>,
        targets: InstructionItemVariant2Targets,
        title: String,
    },
}

/// Semantic version of a configuration file; only well-formed text can be
/// held in one.
#[derive(Clone, Debug)]
pub struct InstruxConfigurationVersion {
    text: String,
}

/// Index of the first character at or after `i` that is not an ASCII digit.
pub open spec fn spec_skip_digits(s: Seq<char>, i: int) -> int
    decreases s.len() - i,
{
    if i < 0 {
        i
    } else if i < s.len() && '0' <= s[i] && s[i] <= '9' {
        spec_skip_digits(s, i + 1)
    } else {
        i
    }
}

/// A character allowed in a pre-release suffix.
pub open spec fn spec_is_suffix_char(c: char) -> bool {
    ('a' <= c && c <= 'z') || ('A' <= c && c <= 'Z') || ('0' <= c && c <= '9') || c == '.'
}

/// Well-formed version text: three non-empty dot-separated digit runs,
/// optionally followed by `-` and a non-empty run of suffix characters.
pub open spec fn spec_semver(s: Seq<char>) -> bool {
    let i = spec_skip_digits(s, 0);
    let j = spec_skip_digits(s, i + 1);
    let k = spec_skip_digits(s, j + 1);
    &&& i > 0
    &&& i < s.len() && s[i] == '.'
    &&& j > i + 1
    &&& j < s.len() && s[j] == '.'
    &&& k > j + 1
    &&& (k == s.len() || (s[k] == '-' && k + 1 < s.len() && forall|m: int|
        k < m < s.len() ==> spec_is_suffix_char(#[trigger] s[m])))
}

impl View for InstruxConfigurationVersion {
    type V = Seq<char>;

    closed spec fn view(&self) -> Seq<char> {
        self.text@
    }
}

impl InstruxConfigurationVersion {
    /// The version text.
    pub fn as_str(&self) -> (r: &str)
        ensures
            r@ == self@,
    {
        self.text.as_str()
    }

    /// Reads a version, accepting exactly the well-formed texts.
    pub fn from_str(s: &str) -> (r: Result<InstruxConfigurationVersion, ConversionError>)
        ensures
            spec_semver(s@) <==> r is Ok,
            r is Ok ==> r->Ok_0@ == s@,
    {
        if version_text_ok(s) {
            let text = s.to_owned();
            assert(spec_semver(text@));
            Ok(InstruxConfigurationVersion { text })
        } else {
            Err(ConversionError::new("doesn't match the version pattern"))
        }
    }
}

/// Executable recogniser for [`spec_semver`].
#[verifier::loop_isolation(false)]
fn version_text_ok(s: &str) -> (r: bool)
    ensures
        r == spec_semver(s@),
{
    let n = s.unicode_len();
    let i = skip_digits(s, 0);
    if !(i > 0 && i < n && s.get_char(i) == '.') {
        return false;
    }
    let j = skip_digits(s, i + 1);
    if !(j > i + 1 && j < n && s.get_char(j) == '.') {
        return false;
    }
    let k = skip_digits(s, j + 1);
    if !(k > j + 1) {
        return false;
    }
    if k == n {
        return true;
    }
    if !(s.get_char(k) == '-' && k + 1 < n) {
        return false;
    }
    let mut m = k + 1;
    while m < n
        invariant
            n == s@.len(),
            k < m <= n,
            forall|q: int| k < q < m ==> spec_is_suffix_char(#[trigger] s@[q]),
        decreases n - m,
    {
        let c = s.get_char(m);
        if !(('a' <= c && c <= 'z') || ('A' <= c && c <= 'Z') || ('0' <= c && c <= '9') || c
            == '.') {
            proof {
                assert(!spec_is_suffix_char(s@[m as int]));
            }
            return false;
        }
        m += 1;
    }
    true
}

/// Executable mirror of [`spec_skip_digits`].
fn skip_digits(s: &str, from: usize) -> (r: usize)
    requires
        from <= s@.len(),
    ensures
        r == spec_skip_digits(s@, from as int),
        from <= r <= s@.len(),
    {
    let n = s.unicode_len();
    let mut i = from;
    while i < n
        invariant
            n == s@.len(),
            from <= i <= n,
            spec_skip_digits(s@, from as int) == spec_skip_digits(s@, i as int),
        decreases n - i,
    {
        let c = s.get_char(i);
        if !('0' <= c && c <= '9') {
            return i;
        }
        i += 1;
    }
    i
}

/// An already-validated instruction document plus its per-target settings.
/// Declared targets are kept as an ordered list of pairs with pairwise
/// distinct targets.
#[derive(Debug)]
pub struct InstruxConfiguration {
    pub instructions: Vec<InstructionItem>,
    pub language: InstruxConfigurationLanguage,
    pub targets: Vec<(Targets, InstruxConfigurationTargetsValue)>,
    pub version: InstruxConfigurationVersion,
}

impl InstruxConfiguration {
    /// Opens a builder with the defaults: no instructions, English, and the
    /// required fields missing.
    pub fn builder() -> (r: crate::builder::InstruxConfiguration)
        ensures
            r.instructions is Ok && r.instructions->Ok_0@.len() == 0,
            r.language is Ok && r.language->Ok_0 is English,
            r.targets is Err,
            r.version is Err,
    {
        Default::default()
    }
}

impl InstruxConfigurationTargetsValue {
    /// Opens a builder with the default output mode.
    pub fn builder() -> (r: crate::builder::InstruxConfigurationTargetsValue)
        ensures
            r.output_mode is Ok && r.output_mode->Ok_0 is Single,
    {
        Default::default()
    }
}

} // verus!
