use vstd::prelude::*;

use crate::text::{concat3, decimal, decimal_text, signed_decimal, signed_decimal_text};

verus! {

/// An error that can be shown to the user as one line of text.
pub trait ErrorMessage: Sized {
    /// The text shown for this error.
    spec fn message_view(&self) -> Seq<char>;

    fn message(&self) -> (r: String)
        ensures
            r@ == self.message_view(),
    ;
}

/// Errors met while reading the configuration.
#[derive(Debug, Clone)]
pub enum ParsingError {
    TomlParsing(String),
    WrongStandart(u8),
    ParamRequired(String),
    FileIO(String),
}

/// Errors in what the user asked for.
#[derive(Debug, Clone)]
pub enum QueryError {
    UnknownCommand(String),
    InvalidPreset(String),
    InvalidEntryPoint(String),
    NoArgs,
}

/// Errors of the planner.
#[derive(Debug, Clone)]
pub enum PlannerError {
    QueryError(QueryError),
    ExecutionError(ExecutionError),
}

/// Errors of a spawned process.
#[derive(Debug, Clone)]
pub enum ExecutionError {
    /// The process could not be spawned or waited for; the text of the I/O error.
    ProcIO(String),
    /// The process exited with a non-zero code; what it wrote to stderr.
    ProcErr { code: i32, errs: String },
}

impl ErrorMessage for ParsingError {
    open spec fn message_view(&self) -> Seq<char> {
        match self {
            ParsingError::TomlParsing(e) => "Toml parsing error: ["@ + e@ + "]"@,
            ParsingError::WrongStandart(n) => "Unallowed standart: '"@ + decimal(*n as nat) + "'"@,
            ParsingError::ParamRequired(p) => "Parameter required: '"@ + p@ + "'"@,
            ParsingError::FileIO(e) => "File IO error: ["@ + e@ + "]"@,
        }
    }

    fn message(&self) -> (r: String) {
        match self {
            ParsingError::TomlParsing(e) => concat3("Toml parsing error: [", e.as_str(), "]"),
            ParsingError::WrongStandart(n) => {
                let d = decimal_text(*n as u64);
                concat3("Unallowed standart: '", d.as_str(), "'")
            },
            ParsingError::ParamRequired(p) => concat3("Parameter required: '", p.as_str(), "'"),
            ParsingError::FileIO(e) => concat3("File IO error: [", e.as_str(), "]"),
        }
    }
}

impl ErrorMessage for QueryError {
    open spec fn message_view(&self) -> Seq<char> {
        match self {
            QueryError::UnknownCommand(c) => "Unknown command: '"@ + c@ + "'"@,
            QueryError::InvalidPreset(p) => "Invalid preset: '"@ + p@ + "'"@,
            QueryError::InvalidEntryPoint(p) => "Invalid entry point: '"@ + p@ + "'"@,
            QueryError::NoArgs => "No arguments provided"@,
        }
    }

    fn message(&self) -> (r: String) {
        match self {
            QueryError::UnknownCommand(c) => concat3("Unknown command: '", c.as_str(), "'"),
            QueryError::InvalidPreset(p) => concat3("Invalid preset: '", p.as_str(), "'"),
            QueryError::InvalidEntryPoint(p) => concat3("Invalid entry point: '", p.as_str(), "'"),
            QueryError::NoArgs => "No arguments provided".to_owned(),
        }
    }
}

impl ErrorMessage for ExecutionError {
    open spec fn message_view(&self) -> Seq<char> {
        match self {
            ExecutionError::ProcIO(e) => "Process IO error: ["@ + e@ + "]"@,
            ExecutionError::ProcErr { code, errs } => "Process finished with error ("@
                + signed_decimal(*code as int) + "): "@ + errs@,
        }
    }

    fn message(&self) -> (r: String) {
        match self {
            ExecutionError::ProcIO(e) => concat3("Process IO error: [", e.as_str(), "]"),
            ExecutionError::ProcErr { code, errs } => {
                let c = signed_decimal_text(*code);
                let mut r = concat3("Process finished with error (", c.as_str(), "): ");
                r.append(errs.as_str());
                r
            },
        }
    }
}

impl ErrorMessage for PlannerError {
    open spec fn message_view(&self) -> Seq<char> {
        match self {
            PlannerError::QueryError(e) => "Query error: ["@ + e.message_view() + "]"@,
            PlannerError::ExecutionError(e) => "Execution error: ["@ + e.message_view() + "]"@,
        }
    }

    fn message(&self) -> (r: String) {
        match self {
            PlannerError::QueryError(e) => {
                let m = e.message();
                concat3("Query error: [", m.as_str(), "]")
            },
            PlannerError::ExecutionError(e) => {
                let m = e.message();
                concat3("Execution error: [", m.as_str(), "]")
            },
        }
    }
}

} // verus!
