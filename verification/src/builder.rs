//! Builders that assemble a configuration value by value, deferring the
//! check for missing parts to the final build.

use vstd::prelude::*;
use crate::model;
use crate::model::{
    ConversionError, InstructionItem, InstruxConfigurationLanguage,
    InstruxConfigurationTargetsValueOutputMode, InstruxConfigurationVersion, Targets,
};

verus! {

/// A configuration under construction: each field either set or holding the
/// complaint that the build will raise.
pub struct InstruxConfiguration {
    pub instructions: Result<Vec<InstructionItem>, String>,
    pub language: Result<InstruxConfigurationLanguage, String>,
    pub targets: Result<
        Vec<(Targets, model::InstruxConfigurationTargetsValue)>,
        String,
    >,
    pub version: Result<InstruxConfigurationVersion, String>,
}

impl Default for InstruxConfiguration {
    fn default() -> (r: Self)
        ensures
            r.instructions is Ok && r.instructions->Ok_0@.len() == 0,
            r.language is Ok && r.language->Ok_0 is English,
            r.targets is Err && r.targets->Err_0@ == "no value supplied for targets"@,
            r.version is Err && r.version->Err_0@ == "no value supplied for version"@,
    {
        InstruxConfiguration {
            instructions: Ok(Vec::new()),
            language: Ok(InstruxConfigurationLanguage::English),
            targets: Err("no value supplied for targets".to_owned()),
            version: Err("no value supplied for version".to_owned()),
        }
    }
}

impl InstruxConfiguration {
    pub fn instructions(self, value: Vec<InstructionItem>) -> (r: Self)
        ensures
            r.instructions == Ok::<_, String>(value),
            r.language == self.language,
            r.targets == self.targets,
            r.version == self.version,
    {
        InstruxConfiguration { instructions: Ok(value), ..self }
    }

    pub fn language(self, value: InstruxConfigurationLanguage) -> (r: Self)
        ensures
            r.language == Ok::<_, String>(value),
            r.instructions == self.instructions,
            r.targets == self.targets,
            r.version == self.version,
    {
        InstruxConfiguration { language: Ok(value), ..self }
    }

    pub fn targets(self, value: Vec<(Targets, model::InstruxConfigurationTargetsValue)>) -> (r:
        Self)
        ensures
            r.targets == Ok::<_, String>(value),
            r.instructions == self.instructions,
            r.language == self.language,
            r.version == self.version,
    {
        InstruxConfiguration { targets: Ok(value), ..self }
    }

    pub fn version(self, value: InstruxConfigurationVersion) -> (r: Self)
        ensures
            r.version == Ok::<_, String>(value),
            r.instructions == self.instructions,
            r.language == self.language,
            r.targets == self.targets,
    {
        InstruxConfiguration { version: Ok(value), ..self }
    }

    /// Closes the builder: the first missing field, in declaration order, is
    /// the error.
    pub fn build(self) -> (r: Result<model::InstruxConfiguration, ConversionError>)
        ensures
            self.instructions is Err ==> r is Err && r->Err_0.msg@ == self.instructions->Err_0@,
            self.instructions is Ok && self.language is Err ==> r is Err && r->Err_0.msg@
                == self.language->Err_0@,
            self.instructions is Ok && self.language is Ok && self.targets is Err ==> r is Err
                && r->Err_0.msg@ == self.targets->Err_0@,
            self.instructions is Ok && self.language is Ok && self.targets is Ok && self.version
                is Err ==> r is Err && r->Err_0.msg@ == self.version->Err_0@,
            self.instructions is Ok && self.language is Ok && self.targets is Ok && self.version
                is Ok ==> r is Ok && r->Ok_0.instructions == self.instructions->Ok_0
                && r->Ok_0.language == self.language->Ok_0 && r->Ok_0.targets
                == self.targets->Ok_0 && r->Ok_0.version == self.version->Ok_0,
    {
        let instructions = match self.instructions {
            Ok(v) => v,
            Err(e) => {
                return Err(ConversionError { msg: e });
            },
        };
        let language = match self.language {
            Ok(v) => v,
            Err(e) => {
                return Err(ConversionError { msg: e });
            },
        };
        let targets = match self.targets {
            Ok(v) => v,
            Err(e) => {
                return Err(ConversionError { msg: e });
            },
        };
        let version = match self.version {
            Ok(v) => v,
            Err(e) => {
                return Err(ConversionError { msg: e });
            },
        };
        Ok(model::InstruxConfiguration { instructions, language, targets, version })
    }
}

/// Per-target settings under construction.
pub struct InstruxConfigurationTargetsValue {
    pub output_mode: Result<InstruxConfigurationTargetsValueOutputMode, String>,
}

impl Default for InstruxConfigurationTargetsValue {
    fn default() -> (r: Self)
        ensures
            r.output_mode is Ok && r.output_mode->Ok_0 is Single,
    {
        InstruxConfigurationTargetsValue {
            output_mode: Ok(InstruxConfigurationTargetsValueOutputMode::Single),
        }
    }
}

impl InstruxConfigurationTargetsValue {
    pub fn output_mode(self, value: InstruxConfigurationTargetsValueOutputMode) -> (r: Self)
        ensures
            r.output_mode == Ok::<_, String>(value),
    {
        InstruxConfigurationTargetsValue { output_mode: Ok(value) }
    }

    /// Closes the builder.
    pub fn build(self) -> (r: Result<model::InstruxConfigurationTargetsValue, ConversionError>)
        ensures
            self.output_mode is Err ==> r is Err && r->Err_0.msg@ == self.output_mode->Err_0@,
            self.output_mode is Ok ==> r is Ok && r->Ok_0.output_mode == self.output_mode->Ok_0,
    {
        match self.output_mode {
            Ok(output_mode) => Ok(model::InstruxConfigurationTargetsValue { output_mode }),
            Err(e) => Err(ConversionError { msg: e }),
        }
    }
}

} // verus!
