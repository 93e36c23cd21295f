//! Error values of the interpreter runtime.
//!
//! Two tiers exist at runtime: fatal errors (values of [`Error`]) abort the
//! whole run and are surfaced to the host; recoverable conditions (a failed
//! file-channel operation) only set a per-channel flag, queryable through the
//! I/O provider, and never produce an [`Error`].

use vstd::prelude::*;

verus! {

/// A fatal interpreter error: the run stops and the host receives this value.
#[derive(Debug, PartialEq, Eq)]
pub enum Error {
    /// A built-in received a non-string argument at the given position.
    ParameterStringExpected(u32),
    /// A built-in received a non-integer argument at the given position.
    ParameterIntegerExpected(u32),
    /// A file operation named a channel outside the 8 fixed slots.
    FileChannelOutOfBounds(i32),
    /// A value of the named kind was used where an integer-coercible
    /// value is required.
    IntegerExpected(String),
    /// The statement or built-in is part of the legacy catalog but is not
    /// implemented by this runtime; programs reaching it fail loudly.
    NotSupported,
    /// A goto or gosub named a label that the current frame's table lacks.
    LabelNotFound(String),
    /// A procedure call named a procedure the program does not implement.
    ProcedureNotFound(String),
    /// A return statement ran with an empty return-address stack.
    ReturnStackUnderflow,
    /// An operand had the wrong kind for an arithmetic, comparison or
    /// condition position.
    TypeMismatch,
    /// A built-in was invoked with the wrong number of arguments.
    WrongParameterCount,
    /// An identifier did not resolve in the current frame.
    VariableNotFound(String),
    /// An array store or load used a legacy index outside the array.
    ArrayIndexOutOfBounds(i32),
    /// A node-table access used an index outside the node table.
    NodeIndexOutOfBounds(i32),
    /// A user-table access used an index outside the user table.
    UserIndexOutOfBounds(i32),
    /// Integer division or remainder by zero.
    DivisionByZero,
    /// The terminal sink reported a failure; the run cannot continue.
    Terminal,
    /// The run used up the step budget the host allowed it.
    StepLimitReached,
}

impl Error {
    /// A short diagnostic text for hosts that log fatal errors.
    pub fn message(&self) -> (r: String)
        ensures
            r@.len() > 0,
    {
        let s: &str = match self {
            Error::ParameterStringExpected(_) => "parameter should be of type String",
            Error::ParameterIntegerExpected(_) => "parameter should be of type Integer",
            Error::FileChannelOutOfBounds(_) => "file channel should be between 0 and 7",
            Error::IntegerExpected(_) => "value should be of type Integer",
            Error::NotSupported => "not supported",
            Error::LabelNotFound(_) => "label not found",
            Error::ProcedureNotFound(_) => "procedure not found",
            Error::ReturnStackUnderflow => "return stack underflow",
            Error::TypeMismatch => "operand has the wrong type",
            Error::WrongParameterCount => "wrong number of parameters",
            Error::VariableNotFound(_) => "variable not found",
            Error::ArrayIndexOutOfBounds(_) => "array index out of bounds",
            Error::NodeIndexOutOfBounds(_) => "node index out of bounds",
            Error::UserIndexOutOfBounds(_) => "user index out of bounds",
            Error::DivisionByZero => "division by zero",
            Error::Terminal => "terminal failure",
            Error::StepLimitReached => "step limit reached",
        };
        proof {
            reveal_strlit("parameter should be of type String");
            reveal_strlit("parameter should be of type Integer");
            reveal_strlit("file channel should be between 0 and 7");
            reveal_strlit("value should be of type Integer");
            reveal_strlit("not supported");
            reveal_strlit("label not found");
            reveal_strlit("procedure not found");
            reveal_strlit("return stack underflow");
            reveal_strlit("operand has the wrong type");
            reveal_strlit("wrong number of parameters");
            reveal_strlit("variable not found");
            reveal_strlit("array index out of bounds");
            reveal_strlit("node index out of bounds");
            reveal_strlit("user index out of bounds");
            reveal_strlit("division by zero");
            reveal_strlit("terminal failure");
            reveal_strlit("step limit reached");
        }
        s.to_owned()
    }
}

} // verus!
