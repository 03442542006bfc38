use vstd::prelude::*;

verus! {

/// The two kinds of output container that an execution can leave behind.
#[derive(Clone, Copy, Debug, PartialEq, Eq, Structural)]
pub enum OutputKind {
    /// OUT binds of a PL/SQL block.
    PlSql,
    /// Rows handed back by a DML RETURNING clause.
    DmlReturning,
}

/// Errors raised by this part of the driver.
#[derive(Clone, Copy, Debug, PartialEq, Eq, Structural)]
pub enum Error {
    /// The caller asked for one kind of output but the execution produced the other.
    ExecutionOutputKindMismatch { expected: OutputKind, found: OutputKind },
    /// The server sent data whose shape does not match what was expected.
    UnexpectedResult,
    /// No row was available where exactly one was required.
    NoDataFound,
    /// More rows were available than the one that was required.
    OutOfRange { count: usize },
    /// The response ended before a value could be read completely.
    UnexpectedEndOfData,
    /// A length byte announced a negative number where only unsigned ones are allowed.
    UnexpectedNegativeInteger,
    /// A length byte announced more bytes than the integer being read can hold.
    IntegerTooLarge { length: u8, max_length: u8 },
    /// A string sent by the server was not valid UTF-8.
    InvalidUtf8,
}

impl Error {
    pub fn output_kind_mismatch(expected: OutputKind, found: OutputKind) -> (e: Error)
        ensures
            e == (Error::ExecutionOutputKindMismatch { expected, found }),
    {
        Error::ExecutionOutputKindMismatch { expected, found }
    }

    pub fn unexpected_result() -> (e: Error)
        ensures
            e == Error::UnexpectedResult,
    {
        Error::UnexpectedResult
    }

    pub fn no_data_found() -> (e: Error)
        ensures
            e == Error::NoDataFound,
    {
        Error::NoDataFound
    }

    pub fn out_of_range(count: usize) -> (e: Error)
        ensures
            e == (Error::OutOfRange { count }),
    {
        Error::OutOfRange { count }
    }
}

} // verus!
