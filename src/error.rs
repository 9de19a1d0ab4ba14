use vstd::prelude::*;

use crate::text::concat;

verus! {

/// What went wrong, without the details that name the place.
#[derive(Debug, Clone, Copy, PartialEq, Eq, Structural)]
pub enum ErrorKind {
    Unknown,
    Ignored,
    UnequalArrays,
    FileNotFound,
    Name,
    UndefinedExpand,
    UndefinedDefault,
    ParserError,
    Header,
    PatternCycle,
    Converter,
}

/// The errors of building a site. `Ignored` is no failure: it signals a file
/// that produces no output.
#[derive(Debug, Clone)]
pub enum MetaError {
    Unknown,
    Ignored,
    UnequalArrays { path: String },
    FileNotFound { path: String },
    Name { file: String },
    UndefinedExpand { val: String, path: String },
    UndefinedDefault { pattern: String, path: String },
    ParserError { file: String, error: String },
    Header { opt: String },
    PatternCycle { pattern: String, path: String },
    Converter { file: String, error: String },
}

impl MetaError {
    pub open spec fn kind(&self) -> ErrorKind {
        match self {
            MetaError::Unknown => ErrorKind::Unknown,
            MetaError::Ignored => ErrorKind::Ignored,
            MetaError::UnequalArrays { .. } => ErrorKind::UnequalArrays,
            MetaError::FileNotFound { .. } => ErrorKind::FileNotFound,
            MetaError::Name { .. } => ErrorKind::Name,
            MetaError::UndefinedExpand { .. } => ErrorKind::UndefinedExpand,
            MetaError::UndefinedDefault { .. } => ErrorKind::UndefinedDefault,
            MetaError::ParserError { .. } => ErrorKind::ParserError,
            MetaError::Header { .. } => ErrorKind::Header,
            MetaError::PatternCycle { .. } => ErrorKind::PatternCycle,
            MetaError::Converter { .. } => ErrorKind::Converter,
        }
    }

    pub fn error_kind(&self) -> (r: ErrorKind)
        ensures
            r == self.kind(),
    {
        match self {
            MetaError::Unknown => ErrorKind::Unknown,
            MetaError::Ignored => ErrorKind::Ignored,
            MetaError::UnequalArrays { .. } => ErrorKind::UnequalArrays,
            MetaError::FileNotFound { .. } => ErrorKind::FileNotFound,
            MetaError::Name { .. } => ErrorKind::Name,
            MetaError::UndefinedExpand { .. } => ErrorKind::UndefinedExpand,
            MetaError::UndefinedDefault { .. } => ErrorKind::UndefinedDefault,
            MetaError::ParserError { .. } => ErrorKind::ParserError,
            MetaError::Header { .. } => ErrorKind::Header,
            MetaError::PatternCycle { .. } => ErrorKind::PatternCycle,
            MetaError::Converter { .. } => ErrorKind::Converter,
        }
    }

    /// A copy of this error.
    pub fn clone_error(&self) -> (r: MetaError)
        ensures
            r.kind() == self.kind(),
    {
        match self {
            MetaError::Unknown => MetaError::Unknown,
            MetaError::Ignored => MetaError::Ignored,
            MetaError::UnequalArrays { path } => MetaError::UnequalArrays { path: path.clone() },
            MetaError::FileNotFound { path } => MetaError::FileNotFound { path: path.clone() },
            MetaError::Name { file } => MetaError::Name { file: file.clone() },
            MetaError::UndefinedExpand { val, path } => MetaError::UndefinedExpand {
                val: val.clone(),
                path: path.clone(),
            },
            MetaError::UndefinedDefault { pattern, path } => MetaError::UndefinedDefault {
                pattern: pattern.clone(),
                path: path.clone(),
            },
            MetaError::ParserError { file, error } => MetaError::ParserError {
                file: file.clone(),
                error: error.clone(),
            },
            MetaError::Header { opt } => MetaError::Header { opt: opt.clone() },
            MetaError::PatternCycle { pattern, path } => MetaError::PatternCycle {
                pattern: pattern.clone(),
                path: path.clone(),
            },
            MetaError::Converter { file, error } => MetaError::Converter {
                file: file.clone(),
                error: error.clone(),
            },
        }
    }

    pub fn is_ignored(&self) -> (r: bool)
        ensures
            r == (self.kind() == ErrorKind::Ignored),
    {
        match self {
            MetaError::Ignored => true,
            _ => false,
        }
    }

    /// A line that describes the error for a reader.
    pub fn message(&self) -> String {
        match self {
            MetaError::Unknown => owned_text("unknown internal error"),
            MetaError::Ignored => owned_text("file ignored"),
            MetaError::UnequalArrays { path } => concat("mismatched array sizes in ", path),
            MetaError::FileNotFound { path } => concat("could not find ", path),
            MetaError::Name { file } => concat("could not determine name from ", file),
            MetaError::UndefinedExpand { val, path } => {
                let a = concat("undefined expansion: ", val);
                let b = concat(&a, "\n\tin ");
                concat(&b, path)
            },
            MetaError::UndefinedDefault { pattern, path } => {
                let a = concat("undefined call to default.meta: ", pattern);
                let b = concat(&a, "\n\tin ");
                concat(&b, path)
            },
            MetaError::ParserError { file, error } => {
                let a = concat(file, "\n");
                concat(&a, error)
            },
            MetaError::Header { opt } => concat("unknown header option: ", opt),
            MetaError::PatternCycle { pattern, path } => {
                let a = concat("pattern cycle suspected: ", pattern);
                let b = concat(&a, "\n\tin ");
                concat(&b, path)
            },
            MetaError::Converter { file, error } => {
                let a = concat("format conversion failed for ", file);
                let b = concat(&a, ": ");
                concat(&b, error)
            },
        }
    }
}

fn owned_text(s: &str) -> (r: String)
    ensures
        r@ == s@,
{
    String::from_str(s)
}

/// Turns the `Ignored` signal into "no value"; other errors pass through.
pub fn check_ignore<T>(result: Result<T, MetaError>) -> (r: Result<Option<T>, MetaError>)
    ensures
        result matches Ok(v) ==> r == Ok::<Option<T>, MetaError>(Some(v)),
        result matches Err(e) ==> (if e.kind() == ErrorKind::Ignored {
            r == Ok::<Option<T>, MetaError>(None)
        } else {
            r == Err::<Option<T>, MetaError>(e)
        }),
{
    match result {
        Ok(f) => Ok(Some(f)),
        Err(e) => {
            if e.is_ignored() {
                Ok(None)
            } else {
                Err(e)
            }
        },
    }
}

} // verus!
