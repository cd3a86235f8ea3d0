//! The login page's form data and layout state.

use vstd::prelude::*;

use crate::error::Error;
use crate::localization::Script;

verus! {

/// What the login page shows: the script and which error banner, if any.
#[derive(Clone, Copy, Debug)]
pub struct LoginLayoutContext {
    pub script: Script,
    pub show_error_all_fields_required: bool,
    pub show_error_invalid_login_info: bool,
}

impl LoginLayoutContext {
    /// The login page with no error shown.
    pub fn new(script: Script) -> (r: Result<Self, Error>)
        ensures
            r matches Ok(c) && c == (LoginLayoutContext {
                script,
                show_error_all_fields_required: false,
                show_error_invalid_login_info: false,
            }),
    {
        Ok(Self { script, show_error_all_fields_required: false, show_error_invalid_login_info: false })
    }

    /// Shows the "all fields required" banner.
    pub fn show_error_all_fields_required(self) -> (r: Self)
        ensures
            r == (LoginLayoutContext { show_error_all_fields_required: true, ..self }),
    {
        LoginLayoutContext { show_error_all_fields_required: true, ..self }
    }

    /// Shows the "invalid login info" banner.
    pub fn show_error_invalid_login_info(self) -> (r: Self)
        ensures
            r == (LoginLayoutContext { show_error_invalid_login_info: true, ..self }),
    {
        LoginLayoutContext { show_error_invalid_login_info: true, ..self }
    }
}

/// What the login form posts.
#[derive(Debug)]
pub struct LoginFormData {
    pub username_or_email: String,
    pub password: String,
    pub timeout: u32,
}

impl LoginFormData {
    /// Both text fields hold something.
    pub fn all_fields_populated(&self) -> (r: bool)
        ensures
            r == (self.username_or_email@.len() > 0 && self.password@.len() > 0),
    {
        !self.username_or_email.as_str().is_empty() && !self.password.as_str().is_empty()
    }
}

} // verus!
