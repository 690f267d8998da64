//! The ways in which a configuration can be wrong.

use vstd::prelude::*;

verus! {

/// Why a configuration was refused. `entry` counts the members of the
/// document's top-level object from zero; `rule` counts the rules of a rule
/// set from zero.
#[derive(Clone, Copy, Debug, PartialEq, Eq, Structural)]
pub enum ConfigError {
    /// The text is not a JSON document.
    Syntax,
    /// The document is not an object.
    NotAnObject,
    /// The rule is neither an array nor an object.
    RuleShape { entry: usize },
    /// The rule's `relative_dir` is not a string.
    WorkingDir { entry: usize },
    /// The rule's `commands` is not an array.
    CommandList { entry: usize },
    /// One of the rule's commands is not a string.
    Command { entry: usize },
    /// The rule's key is not a regular expression that compiles.
    Pattern { rule: usize },
}

impl ConfigError {
    /// A sentence for the user.
    pub fn message(&self) -> (r: &'static str)
        ensures
            r@ == match *self {
                ConfigError::Syntax => "the configuration is not valid JSON"@,
                ConfigError::NotAnObject => "the configuration must be a JSON object"@,
                ConfigError::RuleShape { .. } => "a rule must be an array of commands or an object"@,
                ConfigError::WorkingDir { .. } => "key \"relative_dir\" only takes string values"@,
                ConfigError::CommandList { .. } => "key \"commands\" only takes arrays"@,
                ConfigError::Command { .. } => "commands must be strings"@,
                ConfigError::Pattern { .. } => "the rule's key is not a valid regular expression"@,
            },
    {
        match self {
            ConfigError::Syntax => "the configuration is not valid JSON",
            ConfigError::NotAnObject => "the configuration must be a JSON object",
            ConfigError::RuleShape { .. } => "a rule must be an array of commands or an object",
            ConfigError::WorkingDir { .. } => "key \"relative_dir\" only takes string values",
            ConfigError::CommandList { .. } => "key \"commands\" only takes arrays",
            ConfigError::Command { .. } => "commands must be strings",
            ConfigError::Pattern { .. } => "the rule's key is not a valid regular expression",
        }
    }
}

} // verus!
