//! Command templates with a placeholder for the triggering file's path.
use vstd::prelude::*;
use vstd::string::StringExecFns;

use crate::text::{replace, replace_spec};

verus! {

/// The placeholder that a command template holds for the file's path.
pub const MONI_MARK: &'static str = "MONI_FILE_PATH";

/// A shell command template.
pub struct MoniExecuteCommand {
    origin_command: String,
}

impl MoniExecuteCommand {
    /// The template as given.
    pub closed spec fn template(&self) -> Seq<char> {
        self.origin_command@
    }

    pub fn new(origin_command: &str) -> (r: MoniExecuteCommand)
        ensures
            r.template() == origin_command@,
    {
        MoniExecuteCommand { origin_command: String::from_str(origin_command) }
    }

    /// The command to run for `filepath`: the template with every placeholder
    /// replaced by `filepath`.
    pub fn to_execute_command(&self, filepath: &str) -> (r: String)
        ensures
            r@ == replace_spec(self.template(), MONI_MARK@, filepath@),
    {
        proof {
            reveal_strlit("MONI_FILE_PATH");
        }
        replace(self.origin_command.as_str(), MONI_MARK, filepath)
    }
}

} // verus!
