//! The part of the configuration that indexing reads.

use vstd::prelude::*;
use crate::error::{EleanorError, Report};

verus! {

/// A place that audio comes from: a directory tree with a small number for
/// a name.
#[derive(Debug)]
pub struct Source {
    pub id: u32,
    pub name: String,
    pub path: String,
}

/// A value of the configuration file.
#[derive(Debug)]
pub enum Value {
    Text(String),
    /// A whole number, in whatever base it was written.
    Integer(i64),
    /// A number with a fraction; the sources have no use for one.
    Fraction,
    Bool(bool),
    Null,
}

/// Why an entry of the configuration is no source, if it is none: it has
/// no `id`, an `id` that is no whole number or does not fit in 32 bits
/// without a sign, no `path`, or a `path` that is no text.
pub open spec fn source_failure(id: Option<Value>, path: Option<Value>) -> Option<EleanorError> {
    match id {
        None => Some(EleanorError::MietteError(Report::MissingSourceId)),
        Some(Value::Integer(id)) => if id < 0 || id > u32::MAX {
            Some(EleanorError::TryFromIntError)
        } else {
            match path {
                None => Some(EleanorError::MietteError(Report::MissingSourcePath)),
                Some(Value::Text(_)) => None,
                Some(_) => Some(EleanorError::MietteError(Report::SourcePathNotText)),
            }
        },
        Some(_) => Some(EleanorError::MietteError(Report::SourceIdNotNumber)),
    }
}

impl Source {
    /// Makes a source of an entry of the configuration: its name, and the
    /// values of its `id` and its `path`, where it has them.
    pub fn from_values(name: String, id: Option<Value>, path: Option<Value>) -> (made: Result<
        Source,
        EleanorError,
    >)
        ensures
            made == match source_failure(id, path) {
                Some(error) => Err::<Source, EleanorError>(error),
                None => Ok(Source { id: id->0->Integer_0 as u32, name, path: path->0->Text_0 }),
            },
    {
        let id: u32 = match id {
            None => {
                return Err(EleanorError::MietteError(Report::MissingSourceId));
            },
            Some(Value::Integer(id)) => {
                if id < 0 || id > 0xffff_ffff {
                    return Err(EleanorError::TryFromIntError);
                }
                id as u32
            },
            Some(_) => {
                return Err(EleanorError::MietteError(Report::SourceIdNotNumber));
            },
        };
        match path {
            None => Err(EleanorError::MietteError(Report::MissingSourcePath)),
            Some(Value::Text(path)) => Ok(Source { id, name, path }),
            Some(_) => Err(EleanorError::MietteError(Report::SourcePathNotText)),
        }
    }
}

/// The whole number that a setting of the configuration holds, or
/// `default` where the setting is missing, is no whole number, or does not
/// fit in 32 bits without a sign.
pub fn u32_or(value: Option<&Value>, default: u32) -> (setting: u32)
    ensures
        setting == match value {
            Some(Value::Integer(number)) => if 0 <= *number <= u32::MAX {
                *number as u32
            } else {
                default
            },
            _ => default,
        },
{
    match value {
        Some(Value::Integer(number)) => if 0 <= *number && *number <= 0xffff_ffff {
            *number as u32
        } else {
            default
        },
        _ => default,
    }
}

/// The truth value that a setting of the configuration holds, or `default`
/// where the setting is missing or is no truth value.
pub fn bool_or(value: Option<&Value>, default: bool) -> (setting: bool)
    ensures
        setting == match value {
            Some(Value::Bool(flag)) => *flag,
            _ => default,
        },
{
    match value {
        Some(Value::Bool(flag)) => *flag,
        _ => default,
    }
}

} // verus!
