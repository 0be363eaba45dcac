//! Checked access to the parameters of an event command.
use crate::command::{bool_at, int_at, read_bool, read_int, read_string, read_u32, read_u8, str_at, u32_at, u8_at};
use crate::json::{json_views, JsonValue, JsonView};
use crate::types::EventCommand;
use vstd::prelude::*;

verus! {

/// Why a parameter could not be read.
#[derive(Debug, Clone, Copy, PartialEq, Eq)]
pub enum ParamError {
    /// The command has `actual` parameters, where `expected` were needed.
    WrongLength { expected: usize, actual: usize },
    /// The command has no parameter at `index`.
    OutOfRange { index: usize },
    /// The parameter at `index` is not of the needed type or range.
    Invalid { index: usize },
}

/// The error for a parameter at `index` that did not read, among `len`.
pub open spec fn read_error(index: usize, len: nat) -> ParamError {
    if index < len {
        ParamError::Invalid { index }
    } else {
        ParamError::OutOfRange { index }
    }
}

/// A type that a parameter can be read as.
pub trait ParamReaderOutput: Sized {
    /// Whether the parameter at `index` can be read as this type.
    spec fn can_read(params: Seq<JsonView>, index: int) -> bool;

    /// Whether `v` is what the parameter at `index` reads as.
    spec fn reads_as(params: Seq<JsonView>, index: int, v: Self) -> bool;

    /// The parameter at `index`, read as this type.
    fn from_param(params: &Vec<JsonValue>, index: usize) -> (r: Option<Self>)
        ensures
            match r {
                Some(v) => Self::reads_as(json_views(params@), index as int, v),
                None => !Self::can_read(json_views(params@), index as int),
            },
    ;
}

impl ParamReaderOutput for String {
    open spec fn can_read(params: Seq<JsonView>, index: int) -> bool {
        str_at(params, index) is Some
    }

    open spec fn reads_as(params: Seq<JsonView>, index: int, v: String) -> bool {
        str_at(params, index) == Some(v@)
    }

    fn from_param(params: &Vec<JsonValue>, index: usize) -> (r: Option<String>) {
        read_string(params, index)
    }
}

impl ParamReaderOutput for i64 {
    open spec fn can_read(params: Seq<JsonView>, index: int) -> bool {
        int_at(params, index) is Some
    }

    open spec fn reads_as(params: Seq<JsonView>, index: int, v: i64) -> bool {
        int_at(params, index) == Some(v)
    }

    fn from_param(params: &Vec<JsonValue>, index: usize) -> (r: Option<i64>) {
        read_int(params, index)
    }
}

impl ParamReaderOutput for u32 {
    open spec fn can_read(params: Seq<JsonView>, index: int) -> bool {
        u32_at(params, index) is Some
    }

    open spec fn reads_as(params: Seq<JsonView>, index: int, v: u32) -> bool {
        u32_at(params, index) == Some(v)
    }

    fn from_param(params: &Vec<JsonValue>, index: usize) -> (r: Option<u32>) {
        read_u32(params, index)
    }
}

/// Reads the parameters of one event command.
pub struct ParamReader<'a> {
    pub command: &'a EventCommand,
}

impl<'a> ParamReader<'a> {
    /// A reader of the parameters of `command`.
    pub fn new(command: &'a EventCommand) -> (r: Self)
        ensures
            *r.command == *command,
    {
        ParamReader { command }
    }

    /// Checks that the command has exactly `expected_len` parameters.
    pub fn ensure_len_is(&self, expected_len: usize) -> (r: Result<(), ParamError>)
        ensures
            self.command.parameters@.len() == expected_len ==> r is Ok,
            self.command.parameters@.len() != expected_len ==> r == Err::<(), ParamError>(
                ParamError::WrongLength {
                    expected: expected_len,
                    actual: self.command.parameters@.len() as usize,
                },
            ),
    {
        let actual_len = self.command.parameters.len();
        if actual_len == expected_len {
            Ok(())
        } else {
            Err(ParamError::WrongLength { expected: expected_len, actual: actual_len })
        }
    }

    /// The error for a parameter at `index` that did not read.
    fn error_at(&self, index: usize) -> (e: ParamError)
        ensures
            e == read_error(index, self.command.parameters@.len()),
    {
        if index < self.command.parameters.len() {
            ParamError::Invalid { index }
        } else {
            ParamError::OutOfRange { index }
        }
    }

    /// The parameter at `index`, read as `T`.
    pub fn read_at<T: ParamReaderOutput>(&self, index: usize) -> (r: Result<T, ParamError>)
        ensures
            match r {
                Ok(v) => T::reads_as(self.command@.parameters, index as int, v),
                Err(e) => !T::can_read(self.command@.parameters, index as int) && e == read_error(
                    index,
                    self.command.parameters@.len(),
                ),
            },
    {
        match T::from_param(&self.command.parameters, index) {
            Some(v) => Ok(v),
            None => Err(self.error_at(index)),
        }
    }

    /// The integer at `index`, where it fits an `i64`.
    pub fn read_i64_at(&self, index: usize) -> (r: Result<i64, ParamError>)
        ensures
            match r {
                Ok(v) => int_at(self.command@.parameters, index as int) == Some(v),
                Err(e) => int_at(self.command@.parameters, index as int) is None && e
                    == read_error(index, self.command.parameters@.len()),
            },
    {
        match read_int(&self.command.parameters, index) {
            Some(v) => Ok(v),
            None => Err(self.error_at(index)),
        }
    }

    /// The integer at `index`, where it fits a `u32`.
    pub fn read_u32_at(&self, index: usize) -> (r: Result<u32, ParamError>)
        ensures
            match r {
                Ok(v) => u32_at(self.command@.parameters, index as int) == Some(v),
                Err(e) => u32_at(self.command@.parameters, index as int) is None && e
                    == read_error(index, self.command.parameters@.len()),
            },
    {
        match read_u32(&self.command.parameters, index) {
            Some(v) => Ok(v),
            None => Err(self.error_at(index)),
        }
    }

    /// The integer at `index`, where it fits a `u8`.
    pub fn read_u8_at(&self, index: usize) -> (r: Result<u8, ParamError>)
        ensures
            match r {
                Ok(v) => u8_at(self.command@.parameters, index as int) == Some(v),
                Err(e) => u8_at(self.command@.parameters, index as int) is None && e
                    == read_error(index, self.command.parameters@.len()),
            },
    {
        match read_u8(&self.command.parameters, index) {
            Some(v) => Ok(v),
            None => Err(self.error_at(index)),
        }
    }

    /// The boolean at `index`.
    pub fn read_bool_at(&self, index: usize) -> (r: Result<bool, ParamError>)
        ensures
            match r {
                Ok(v) => bool_at(self.command@.parameters, index as int) == Some(v),
                Err(e) => bool_at(self.command@.parameters, index as int) is None && e
                    == read_error(index, self.command.parameters@.len()),
            },
    {
        match read_bool(&self.command.parameters, index) {
            Some(v) => Ok(v),
            None => Err(self.error_at(index)),
        }
    }

    /// The string at `index`.
    pub fn read_string_at(&self, index: usize) -> (r: Result<String, ParamError>)
        ensures
            match r {
                Ok(v) => str_at(self.command@.parameters, index as int) == Some(v@),
                Err(e) => str_at(self.command@.parameters, index as int) is None && e
                    == read_error(index, self.command.parameters@.len()),
            },
    {
        match read_string(&self.command.parameters, index) {
            Some(v) => Ok(v),
            None => Err(self.error_at(index)),
        }
    }
}

} // verus!
