//! The errors of the application and the text they are reported with.
use vstd::prelude::*;
use vstd::string::StringExecFns;
use crate::text::string_of;

verus! {

/// What went wrong; errors that come from outside carry their message.
#[derive(Debug)]
pub enum AppError {
    Network(String),
    Deserialization(String),
    Serialization(String),
    Io(String),
    Application(String),
    Exit,
    LuaError(String),
    Env(String),
}

/// The text an error is reported with.
pub open spec fn spec_error_message(e: AppError) -> Seq<char> {
    match e {
        AppError::Network(s) => "Network error: "@ + s@,
        AppError::Deserialization(s) => "Deserialization error: "@ + s@,
        AppError::Serialization(s) => "Serialization error: "@ + s@,
        AppError::Io(s) => "IO error: "@ + s@,
        AppError::Application(s) => "Application error: "@ + s@,
        AppError::Exit => "User requested exit"@,
        AppError::LuaError(s) => "Lua error: "@ + s@,
        AppError::Env(s) => "Environment error: "@ + s@,
    }
}

fn prefixed(prefix: &str, s: &String) -> (r: String)
    ensures
        r@ == prefix@ + s@,
{
    let mut r = string_of(prefix);
    r.append(s.as_str());
    r
}

impl AppError {
    /// The text the error is reported with.
    pub fn message(&self) -> (r: String)
        ensures
            r@ == spec_error_message(*self),
    {
        match self {
            AppError::Network(s) => prefixed("Network error: ", s),
            AppError::Deserialization(s) => prefixed("Deserialization error: ", s),
            AppError::Serialization(s) => prefixed("Serialization error: ", s),
            AppError::Io(s) => prefixed("IO error: ", s),
            AppError::Application(s) => prefixed("Application error: ", s),
            AppError::Exit => string_of("User requested exit"),
            AppError::LuaError(s) => prefixed("Lua error: ", s),
            AppError::Env(s) => prefixed("Environment error: ", s),
        }
    }

    /// Whether this is the request to leave the application.
    pub fn is_exit(&self) -> (r: bool)
        ensures
            r == (*self is Exit),
    {
        match self {
            AppError::Exit => true,
            _ => false,
        }
    }
}

} // verus!
