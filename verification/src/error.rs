//! Errors of the engine.
use vstd::prelude::*;
use crate::text::concat2;

verus! {

/// Core errors for the Pathos engine.
#[derive(Debug)]
pub enum CoreError {
    PassageNotFound(String),
    StateKeyNotFound(String),
    InvalidStatePath(String),
    Script(String),
    Expression(String),
    Macro(String),
    Hook(String),
    InvalidFloatState,
}

/// The content of a `CoreError`.
pub enum ErrorModel {
    PassageNotFound(Seq<char>),
    StateKeyNotFound(Seq<char>),
    InvalidStatePath(Seq<char>),
    Script(Seq<char>),
    Expression(Seq<char>),
    Macro(Seq<char>),
    Hook(Seq<char>),
    InvalidFloatState,
}

impl CoreError {
    pub open spec fn model(&self) -> ErrorModel {
        match self {
            CoreError::PassageNotFound(s) => ErrorModel::PassageNotFound(s@),
            CoreError::StateKeyNotFound(s) => ErrorModel::StateKeyNotFound(s@),
            CoreError::InvalidStatePath(s) => ErrorModel::InvalidStatePath(s@),
            CoreError::Script(s) => ErrorModel::Script(s@),
            CoreError::Expression(s) => ErrorModel::Expression(s@),
            CoreError::Macro(s) => ErrorModel::Macro(s@),
            CoreError::Hook(s) => ErrorModel::Hook(s@),
            CoreError::InvalidFloatState => ErrorModel::InvalidFloatState,
        }
    }
}

/// The message of an error.
pub open spec fn error_text(e: ErrorModel) -> Seq<char> {
    match e {
        ErrorModel::PassageNotFound(s) => "passage not found: "@ + s,
        ErrorModel::StateKeyNotFound(s) => "state key not found: "@ + s,
        ErrorModel::InvalidStatePath(s) => "invalid state path: "@ + s,
        ErrorModel::Script(s) => "script error: "@ + s,
        ErrorModel::Expression(s) => "expression error: "@ + s,
        ErrorModel::Macro(s) => "macro error: "@ + s,
        ErrorModel::Hook(s) => "hook error: "@ + s,
        ErrorModel::InvalidFloatState => "state value contains NaN or Infinity, which are not allowed"@,
    }
}

impl CoreError {
    /// The message of this error.
    pub fn message(&self) -> (r: String)
        ensures
            r@ == error_text(self.model()),
    {
        match self {
            CoreError::PassageNotFound(s) => concat2("passage not found: ", s.as_str()),
            CoreError::StateKeyNotFound(s) => concat2("state key not found: ", s.as_str()),
            CoreError::InvalidStatePath(s) => concat2("invalid state path: ", s.as_str()),
            CoreError::Script(s) => concat2("script error: ", s.as_str()),
            CoreError::Expression(s) => concat2("expression error: ", s.as_str()),
            CoreError::Macro(s) => concat2("macro error: ", s.as_str()),
            CoreError::Hook(s) => concat2("hook error: ", s.as_str()),
            CoreError::InvalidFloatState => String::from_str(
                "state value contains NaN or Infinity, which are not allowed",
            ),
        }
    }
}

} // verus!
