//! Type definitions produced from WebIDL.

use vstd::prelude::*;
use vstd::string::*;
use crate::error::TsError;

verus! {

/// Holds the type definitions produced from the last WebIDL text that
/// parsed.
pub struct WebIdlProcessor {
    /// The produced type definitions.
    pub typescript_definitions: String,
}

impl WebIdlProcessor {
    /// A processor with no definitions yet.
    pub fn new() -> (p: Self)
        ensures
            p.typescript_definitions@ == Seq::<char>::empty(),
    {
        WebIdlProcessor { typescript_definitions: String::new() }
    }

    /// Takes the outcome of parsing and converting a WebIDL text: the
    /// produced definitions replace the held ones; a parse error message
    /// becomes a syntax error `WebIDL parse error: ` and the message, and
    /// the held definitions stay.
    pub fn apply_conversion(&mut self, outcome: Result<String, String>) -> (r: Result<(), TsError>)
        ensures
            match outcome {
                Ok(defs) => r is Ok && final(self).typescript_definitions@ == defs@,
                Err(msg) => (r matches Err(TsError::SyntaxError(m)) && m@ == "WebIDL parse error: "@ + msg@)
                    && final(self).typescript_definitions@ == old(self).typescript_definitions@,
            },
    {
        match outcome {
            Ok(defs) => {
                self.typescript_definitions = defs;
                Ok(())
            },
            Err(msg) => {
                let mut m = String::from_str("WebIDL parse error: ");
                m.append(msg.as_str());
                Err(TsError::SyntaxError(m))
            },
        }
    }

    /// The produced type definitions.
    pub fn get_typescript_definitions(&self) -> (s: &str)
        ensures
            s@ == self.typescript_definitions@,
    {
        self.typescript_definitions.as_str()
    }
}

} // verus!
