//! The one failure type of the crate.

use vstd::prelude::*;
use crate::unit::Unit;
use crate::utils::push_str;
use crate::utils::string_from_chars;

verus! {

/// Why a parameter list or an argument list could not be read.
#[derive(Debug, Clone, Copy, PartialEq, Eq, Structural)]
pub enum SyntaxError {
    /// The tokens ended inside a list: a parenthesis was never closed.
    UnexpectedEof,
    /// A parameter did not start with `$`.
    ExpectedParameter,
    /// No name followed a `$`.
    ExpectedIdentifier,
    /// A `.` was not followed by two more.
    ExpectedDot,
    /// Something other than `)` followed `...`.
    ExpectedCloseParen,
    /// No `{` followed the parameter list.
    ExpectedOpenBrace,
    /// A parameter name was followed by a token that cannot follow it.
    UnexpectedToken,
    /// No value starts at this token.
    ExpectedExpression,
    /// A number is followed by letters that name no unit.
    UnknownUnit,
}

/// A failure of parsing, binding or evaluation. Every failure ends the
/// operation it came from; nothing is returned beside it.
#[derive(Debug, Clone, PartialEq, Eq)]
pub enum SassError {
    /// A malformed parameter list, argument list or value.
    Syntax(SyntaxError),
    /// A call names the same argument twice.
    DuplicateArgument(String),
    /// A named argument is left where only positional ones can be collected.
    NamedRestArgument(String),
    /// A variable is read that the scope does not hold.
    UndefinedVariable(String),
    /// A call gives no argument for the parameter of this name.
    MissingArgument(String),
    /// A call gives an argument under a name that no parameter has.
    UnknownArgument(String),
    /// A call gives more positional arguments than there are parameters.
    TooManyArguments,
    /// The argument for parameter `param` is no number; `found` is its text.
    NotANumber { param: String, found: String },
    /// The argument for parameter `param` is a number with a unit where a
    /// plain number is required; `found` is its text.
    NotUnitless { param: String, found: String },
    /// An arithmetic operator was given something other than a number.
    InvalidOperand,
    /// An arithmetic operator was given numbers whose units cannot be
    /// converted into each other.
    IncompatibleUnits(Unit, Unit),
}

/// A `SassError` with its texts as character sequences.
pub enum Failure {
    Syntax(SyntaxError),
    DuplicateArgument(Seq<char>),
    NamedRestArgument(Seq<char>),
    UndefinedVariable(Seq<char>),
    MissingArgument(Seq<char>),
    UnknownArgument(Seq<char>),
    TooManyArguments,
    NotANumber { param: Seq<char>, found: Seq<char> },
    NotUnitless { param: Seq<char>, found: Seq<char> },
    InvalidOperand,
    IncompatibleUnits(Unit, Unit),
}

impl View for SassError {
    type V = Failure;

    open spec fn view(&self) -> Failure {
        match self {
            SassError::Syntax(e) => Failure::Syntax(*e),
            SassError::DuplicateArgument(n) => Failure::DuplicateArgument(n@),
            SassError::NamedRestArgument(n) => Failure::NamedRestArgument(n@),
            SassError::UndefinedVariable(n) => Failure::UndefinedVariable(n@),
            SassError::MissingArgument(n) => Failure::MissingArgument(n@),
            SassError::UnknownArgument(n) => Failure::UnknownArgument(n@),
            SassError::TooManyArguments => Failure::TooManyArguments,
            SassError::NotANumber { param, found } => Failure::NotANumber {
                param: param@,
                found: found@,
            },
            SassError::NotUnitless { param, found } => Failure::NotUnitless {
                param: param@,
                found: found@,
            },
            SassError::InvalidOperand => Failure::InvalidOperand,
            SassError::IncompatibleUnits(a, b) => Failure::IncompatibleUnits(*a, *b),
        }
    }
}

impl SyntaxError {
    /// What the reader of the style sheet is told.
    pub open spec fn text(self) -> Seq<char> {
        match self {
            SyntaxError::UnexpectedEof => "expected \")\"."@,
            SyntaxError::ExpectedParameter => "expected \"$\"."@,
            SyntaxError::ExpectedIdentifier => "Expected identifier."@,
            SyntaxError::ExpectedDot => "expected \".\"."@,
            SyntaxError::ExpectedCloseParen => "expected \")\"."@,
            SyntaxError::ExpectedOpenBrace => "expected \"{\"."@,
            SyntaxError::UnexpectedToken => "expected \",\"."@,
            SyntaxError::ExpectedExpression => "Expected expression."@,
            SyntaxError::UnknownUnit => "Unknown unit."@,
        }
    }

    /// What the reader of the style sheet is told.
    pub fn as_str(&self) -> (s: &'static str)
        ensures
            s@ == self.text(),
    {
        match self {
            SyntaxError::UnexpectedEof => "expected \")\".",
            SyntaxError::ExpectedParameter => "expected \"$\".",
            SyntaxError::ExpectedIdentifier => "Expected identifier.",
            SyntaxError::ExpectedDot => "expected \".\".",
            SyntaxError::ExpectedCloseParen => "expected \")\".",
            SyntaxError::ExpectedOpenBrace => "expected \"{\".",
            SyntaxError::UnexpectedToken => "expected \",\".",
            SyntaxError::ExpectedExpression => "Expected expression.",
            SyntaxError::UnknownUnit => "Unknown unit.",
        }
    }
}

impl Failure {
    /// What the reader of the style sheet is told. A failure about an
    /// argument names its parameter.
    pub open spec fn message(self) -> Seq<char> {
        match self {
            Failure::Syntax(e) => e.text(),
            Failure::DuplicateArgument(n) => "Duplicate argument $"@ + n + "."@,
            Failure::NamedRestArgument(n) => "No parameter takes the argument $"@ + n + "."@,
            Failure::UndefinedVariable(n) => "Undefined variable $"@ + n + "."@,
            Failure::MissingArgument(n) => "Missing argument $"@ + n + "."@,
            Failure::UnknownArgument(n) => "No parameter named $"@ + n + "."@,
            Failure::TooManyArguments => "Too many arguments were passed."@,
            Failure::NotANumber { param, found } => "$"@ + param + ": "@ + found
                + " is not a number."@,
            Failure::NotUnitless { param, found } => "$"@ + param + ": Expected "@ + found
                + " to have no units."@,
            Failure::InvalidOperand => "Undefined operation."@,
            Failure::IncompatibleUnits(a, b) => "Incompatible units "@ + a.suffix() + " and "@
                + b.suffix() + "."@,
        }
    }
}

impl SassError {
    /// What the reader of the style sheet is told.
    pub fn message(&self) -> (s: String)
        ensures
            s@ == self@.message(),
    {
        let mut out: Vec<char> = Vec::new();
        match self {
            SassError::Syntax(e) => {
                push_str(&mut out, e.as_str());
            },
            SassError::DuplicateArgument(n) => {
                push_str(&mut out, "Duplicate argument $");
                push_str(&mut out, n.as_str());
                push_str(&mut out, ".");
            },
            SassError::NamedRestArgument(n) => {
                push_str(&mut out, "No parameter takes the argument $");
                push_str(&mut out, n.as_str());
                push_str(&mut out, ".");
            },
            SassError::UndefinedVariable(n) => {
                push_str(&mut out, "Undefined variable $");
                push_str(&mut out, n.as_str());
                push_str(&mut out, ".");
            },
            SassError::MissingArgument(n) => {
                push_str(&mut out, "Missing argument $");
                push_str(&mut out, n.as_str());
                push_str(&mut out, ".");
            },
            SassError::UnknownArgument(n) => {
                push_str(&mut out, "No parameter named $");
                push_str(&mut out, n.as_str());
                push_str(&mut out, ".");
            },
            SassError::TooManyArguments => {
                push_str(&mut out, "Too many arguments were passed.");
            },
            SassError::NotANumber { param, found } => {
                push_str(&mut out, "$");
                push_str(&mut out, param.as_str());
                push_str(&mut out, ": ");
                push_str(&mut out, found.as_str());
                push_str(&mut out, " is not a number.");
            },
            SassError::NotUnitless { param, found } => {
                push_str(&mut out, "$");
                push_str(&mut out, param.as_str());
                push_str(&mut out, ": Expected ");
                push_str(&mut out, found.as_str());
                push_str(&mut out, " to have no units.");
            },
            SassError::InvalidOperand => {
                push_str(&mut out, "Undefined operation.");
            },
            SassError::IncompatibleUnits(a, b) => {
                push_str(&mut out, "Incompatible units ");
                push_str(&mut out, a.as_str());
                push_str(&mut out, " and ");
                push_str(&mut out, b.as_str());
                push_str(&mut out, ".");
            },
        }
        assert(out@ =~= self@.message());
        string_from_chars(&out)
    }
}

} // verus!
