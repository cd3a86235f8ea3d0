//! The scripts the portal renders in, and the decoding of their codes.

use vstd::prelude::*;

use crate::error::Error;
use crate::text::str_eq;

verus! {

/// A script the portal can render text in.
#[derive(Clone, Copy, Debug, PartialEq, Eq, Structural)]
pub enum Script {
    Latin,
    Cyrillic,
}

/// The cookie code of the Latin script.
pub const SCRIPT_CODE_LATIN: &'static str = "latin";

/// The cookie code of the Cyrillic script.
pub const SCRIPT_CODE_CYRILLIC: &'static str = "cyrillic";

/// The display name of the Latin script.
pub const SCRIPT_STRING_LATIN: &'static str = "Latin";

/// The display name of the Cyrillic script.
pub const SCRIPT_STRING_CYRILLIC: &'static str = "Cyrillic";

impl Script {
    /// Decodes a script cookie code; `InvalidLanguageCode` exactly on
    /// anything but the two known codes.
    pub fn from_code(code: &str) -> (r: Result<Script, Error>)
        ensures
            match r {
                Ok(Script::Latin) => code@ == SCRIPT_CODE_LATIN@,
                Ok(Script::Cyrillic) => code@ == SCRIPT_CODE_CYRILLIC@,
                Err(e) => e == Error::InvalidLanguageCode && code@ != SCRIPT_CODE_LATIN@ && code@
                    != SCRIPT_CODE_CYRILLIC@,
            },
    {
        if str_eq(code, SCRIPT_CODE_LATIN) {
            Ok(Script::Latin)
        } else if str_eq(code, SCRIPT_CODE_CYRILLIC) {
            Ok(Script::Cyrillic)
        } else {
            Err(Error::InvalidLanguageCode)
        }
    }

    /// Decodes a script display name; `InvalidLanguageCode` exactly on
    /// anything but the two known names.
    pub fn from_string(string: &str) -> (r: Result<Script, Error>)
        ensures
            match r {
                Ok(Script::Latin) => string@ == SCRIPT_STRING_LATIN@,
                Ok(Script::Cyrillic) => string@ == SCRIPT_STRING_CYRILLIC@,
                Err(e) => e == Error::InvalidLanguageCode && string@ != SCRIPT_STRING_LATIN@
                    && string@ != SCRIPT_STRING_CYRILLIC@,
            },
    {
        if str_eq(string, SCRIPT_STRING_LATIN) {
            Ok(Script::Latin)
        } else if str_eq(string, SCRIPT_STRING_CYRILLIC) {
            Ok(Script::Cyrillic)
        } else {
            Err(Error::InvalidLanguageCode)
        }
    }
}

} // verus!
