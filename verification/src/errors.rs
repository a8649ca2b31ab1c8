//! What can go wrong while a program is assembled or run.

use vstd::prelude::*;
use vstd::string::StringExecFns;

verus! {

/// A failure that is described by its text alone.
#[derive(Debug, Clone, PartialEq, Eq)]
pub struct StringError(pub String);

impl View for StringError {
    type V = Seq<char>;

    open spec fn view(&self) -> Seq<char> {
        self.0@
    }
}

/// The text with which a [`StringError`] that holds `message` is shown.
pub open spec fn string_error_text(message: Seq<char>) -> Seq<char> {
    "error: "@ + message
}

impl StringError {
    /// The text with which this failure is shown.
    pub fn to_string(&self) -> (text: String)
        ensures
            text@ == string_error_text(self@),
    {
        String::from_str("error: ").concat(self.0.as_str())
    }
}

/// Why a token is no number of the width that was asked for.
#[derive(Debug, Clone, Copy, PartialEq, Eq, Structural)]
pub enum Fault {
    /// The statement has no token at the place of the operand.
    Missing,
    /// The token is empty.
    Empty,
    /// The token holds something other than decimal digits behind an
    /// optional `+`, or no digit at all.
    InvalidDigit,
    /// The digits denote a number that is too large.
    Overflow,
}

/// The text with which a [`Fault`] is shown.
pub open spec fn fault_text(fault: Fault) -> Seq<char> {
    match fault {
        Fault::Missing => "missing operand"@,
        Fault::Empty => "cannot parse integer from empty string"@,
        Fault::InvalidDigit => "invalid digit found in string"@,
        Fault::Overflow => "number too large to fit in target type"@,
    }
}

impl Fault {
    /// The text with which this fault is shown.
    pub fn to_string(&self) -> (text: String)
        ensures
            text@ == fault_text(*self),
    {
        match self {
            Fault::Missing => String::from_str("missing operand"),
            Fault::Empty => String::from_str("cannot parse integer from empty string"),
            Fault::InvalidDigit => String::from_str("invalid digit found in string"),
            Fault::Overflow => String::from_str("number too large to fit in target type"),
        }
    }
}

/// An operand that could not be read as a number.
#[derive(Debug, Clone, PartialEq, Eq)]
pub struct ParseError {
    /// The token as it stands in the source; empty where it is missing.
    pub token: String,
    /// What is wrong with it.
    pub fault: Fault,
    /// The place of the statement among the statements, counted from zero.
    pub operation: usize,
    /// The place of the operand among the statement's operands, counted
    /// from zero.
    pub argument: usize,
}

/// A [`ParseError`] as contracts speak of it.
pub struct ParseErrorView {
    pub token: Seq<char>,
    pub fault: Fault,
    pub operation: nat,
    pub argument: nat,
}

impl View for ParseError {
    type V = ParseErrorView;

    open spec fn view(&self) -> ParseErrorView {
        ParseErrorView {
            token: self.token@,
            fault: self.fault,
            operation: self.operation as nat,
            argument: self.argument as nat,
        }
    }
}

/// Every way in which assembling or running a program can end early.
#[derive(Debug, Clone, PartialEq, Eq)]
pub enum Error {
    /// An operand could not be read as a number; nothing was encoded.
    Parse(ParseError),
    /// The program executed its halt instruction: the expected way for a
    /// program to stop.
    Halt,
    /// The program executed the illegal instruction.
    Illegal,
    /// An instruction named a register that the machine does not have.
    Index(u8),
    /// A failure from outside the machine.
    Other(StringError),
}

/// An [`Error`] as contracts speak of it.
pub enum ErrorView {
    Parse(ParseErrorView),
    Halt,
    Illegal,
    Index(u8),
    Other(Seq<char>),
}

impl View for Error {
    type V = ErrorView;

    open spec fn view(&self) -> ErrorView {
        match self {
            Error::Parse(e) => ErrorView::Parse(e@),
            Error::Halt => ErrorView::Halt,
            Error::Illegal => ErrorView::Illegal,
            Error::Index(register) => ErrorView::Index(*register),
            Error::Other(e) => ErrorView::Other(e@),
        }
    }
}

/// The text with which an [`Error`] is shown.
pub open spec fn error_text(error: ErrorView) -> Seq<char> {
    match error {
        ErrorView::Parse(e) => fault_text(e.fault),
        ErrorView::Halt => string_error_text("halt"@),
        ErrorView::Illegal => string_error_text("illegal"@),
        ErrorView::Index(_) => string_error_text("register out of range"@),
        ErrorView::Other(message) => string_error_text(message),
    }
}

impl Error {
    /// Whether this is the way in which a program is expected to end: by
    /// its halt instruction. Every other failure is a defect of the program
    /// or of its source.
    pub fn is_expected(&self) -> (expected: bool)
        ensures
            expected == (self@ is Halt),
    {
        match self {
            Error::Halt => true,
            _ => false,
        }
    }

    /// The text with which this failure is shown.
    pub fn to_string(&self) -> (text: String)
        ensures
            text@ == error_text(self@),
    {
        match self {
            Error::Parse(e) => e.fault.to_string(),
            Error::Halt => StringError(String::from_str("halt")).to_string(),
            Error::Illegal => StringError(String::from_str("illegal")).to_string(),
            Error::Index(_) => StringError(String::from_str("register out of range")).to_string(),
            Error::Other(e) => e.to_string(),
        }
    }
}

/// The result of an operation of this library.
pub type Result<T> = std::result::Result<T, Error>;

} // verus!
