//! The calculator's error taxonomy.
//!
//! Input errors (the user's fault) carry a position or span for precise
//! pointing; runtime errors (the environment's fault, such as storage
//! failures) propagate opaquely. Before crossing the library's boundary every
//! input error becomes a display string with an optional position
//! (`CalculatorFailure::InputError`), so callers branch only on "has
//! position" versus "opaque". Each error type's `message` method is the
//! verified rendering; the `spec_*_message` functions state the exact text.

use vstd::prelude::*;

verus! {

use crate::position::{MaybePositioned, Position, Positioned};
use crate::token::{spec_function_desc, spec_token_desc, FunctionNameToken, Token};

/// Any failure evaluating one line of calculator input.
#[derive(Debug)]
pub enum CalculatorFailure {
    /// The user's fault: bad syntax, an unknown variable, division by zero, a
    /// missing capability. Carries a display string and, where one can be
    /// attributed, a position.
    InputError(MaybePositioned<String>),
    /// Not the user's fault, such as a storage failure. Propagates opaquely.
    RuntimeError(String),
}

/// An internal invariant was broken.
#[derive(Debug)]
pub struct InternalCalculatorError {
    pub message: String,
}

impl InternalCalculatorError {
    pub fn new(message: String) -> (r: InternalCalculatorError)
        ensures
            r.message == message,
    {
        InternalCalculatorError { message }
    }

    /// The error's display text.
    pub fn message(&self) -> (r: String)
        ensures
            r@ == "InternalCalculatorError: "@ + self.message@,
    {
        proof {
            reveal_strlit("InternalCalculatorError: ");
        }
        let mut m = String::from_str("InternalCalculatorError: ");
        m.append(self.message.as_str());
        m
    }
}

/// The environment cannot support the calculator (for example, the terminal
/// is too narrow).
#[derive(Debug)]
pub struct CalculatorEnvironmentError {
    pub message: String,
}

impl CalculatorEnvironmentError {
    pub fn new(message: String) -> (r: CalculatorEnvironmentError)
        ensures
            r.message == message,
    {
        CalculatorEnvironmentError { message }
    }

    /// The error's display text.
    pub fn message(&self) -> (r: String)
        ensures
            r@ == "CalculatorEnvironmentError: "@ + self.message@,
    {
        proof {
            reveal_strlit("CalculatorEnvironmentError: ");
        }
        let mut m = String::from_str("CalculatorEnvironmentError: ");
        m.append(self.message.as_str());
        m
    }
}

/// The saved-data store holds something inconsistent.
#[derive(Debug)]
pub struct CalculatorDatabaseInconsistencyError {
    pub message: String,
}

impl CalculatorDatabaseInconsistencyError {
    pub fn new(message: String) -> (r: CalculatorDatabaseInconsistencyError)
        ensures
            r.message == message,
    {
        CalculatorDatabaseInconsistencyError { message }
    }

    /// The error's display text.
    pub fn message(&self) -> (r: String)
        ensures
            r@ == "CalculatorDatabaseInconsistencyError: "@ + self.message@,
    {
        proof {
            reveal_strlit("CalculatorDatabaseInconsistencyError: ");
        }
        let mut m = String::from_str("CalculatorDatabaseInconsistencyError: ");
        m.append(self.message.as_str());
        m
    }
}

/// A lexical error: the input could not be tokenized.
#[derive(Clone, Debug)]
pub enum ParseError {
    NonAscii,
    InvalidNumber(String),
    InvalidVariable(String),
}

/// The display text of a `ParseError` over its mathematical view.
pub open spec fn spec_parse_error_message(e: ParseErrorValue) -> Seq<char> {
    match e {
        ParseErrorValue::NonAscii => "Non-ASCII data in input"@,
        ParseErrorValue::InvalidNumber(s) => "Unable to parse number: '"@ + s + "'"@,
        ParseErrorValue::InvalidVariable(s) => "Invalid variable name: '"@ + s + "'"@,
    }
}

/// The mathematical view of a `ParseError`: the offending text as a character
/// sequence.
pub ghost enum ParseErrorValue {
    NonAscii,
    InvalidNumber(Seq<char>),
    InvalidVariable(Seq<char>),
}

impl View for ParseError {
    type V = ParseErrorValue;

    open spec fn view(&self) -> ParseErrorValue {
        match self {
            ParseError::NonAscii => ParseErrorValue::NonAscii,
            ParseError::InvalidNumber(s) => ParseErrorValue::InvalidNumber(s@),
            ParseError::InvalidVariable(s) => ParseErrorValue::InvalidVariable(s@),
        }
    }
}

impl ParseError {
    /// The error's display text.
    pub fn message(&self) -> (r: String)
        ensures
            r@ == spec_parse_error_message(self@),
    {
        proof {
            reveal_strlit("Unable to parse number: '");
            reveal_strlit("Invalid variable name: '");
            reveal_strlit("'");
        }
        match self {
            ParseError::NonAscii => String::from_str("Non-ASCII data in input"),
            ParseError::InvalidNumber(s) => {
                let mut m = String::from_str("Unable to parse number: '");
                m.append(s.as_str());
                m.append("'");
                m
            },
            ParseError::InvalidVariable(s) => {
                let mut m = String::from_str("Invalid variable name: '");
                m.append(s.as_str());
                m.append("'");
                m
            },
        }
    }
}

/// A grammatical error: the token sequence is not a valid expression.
#[derive(Debug)]
pub enum SyntaxError {
    NoInput,
    UnexpectedToken(Token),
    MismatchedOpenParen,
    MismatchedCloseParen,
    EmptyParens,
    MissingOperand(Token),
    CommaWithoutOperandBefore,
    CommaWithoutOperandAfter,
    FunctionWithoutParensOrArgument(FunctionNameToken),
    MissingOperator,
}

/// The mathematical view of a `SyntaxError`, carrying token views.
pub ghost enum SyntaxErrorValue {
    NoInput,
    UnexpectedToken(crate::token::TokenValue),
    MismatchedOpenParen,
    MismatchedCloseParen,
    EmptyParens,
    MissingOperand(crate::token::TokenValue),
    CommaWithoutOperandBefore,
    CommaWithoutOperandAfter,
    FunctionWithoutParensOrArgument(FunctionNameToken),
    MissingOperator,
}

impl View for SyntaxError {
    type V = SyntaxErrorValue;

    open spec fn view(&self) -> SyntaxErrorValue {
        match self {
            SyntaxError::NoInput => SyntaxErrorValue::NoInput,
            SyntaxError::UnexpectedToken(t) => SyntaxErrorValue::UnexpectedToken(t@),
            SyntaxError::MismatchedOpenParen => SyntaxErrorValue::MismatchedOpenParen,
            SyntaxError::MismatchedCloseParen => SyntaxErrorValue::MismatchedCloseParen,
            SyntaxError::EmptyParens => SyntaxErrorValue::EmptyParens,
            SyntaxError::MissingOperand(t) => SyntaxErrorValue::MissingOperand(t@),
            SyntaxError::CommaWithoutOperandBefore => SyntaxErrorValue::CommaWithoutOperandBefore,
            SyntaxError::CommaWithoutOperandAfter => SyntaxErrorValue::CommaWithoutOperandAfter,
            SyntaxError::FunctionWithoutParensOrArgument(f) => {
                SyntaxErrorValue::FunctionWithoutParensOrArgument(*f)
            },
            SyntaxError::MissingOperator => SyntaxErrorValue::MissingOperator,
        }
    }
}

/// The display text of a `SyntaxError` over its mathematical view.
pub open spec fn spec_syntax_error_message(e: SyntaxErrorValue) -> Seq<char> {
    match e {
        SyntaxErrorValue::NoInput => "No input"@,
        SyntaxErrorValue::UnexpectedToken(t) => "Unexpected token encountered: "@
            + spec_token_desc(t),
        SyntaxErrorValue::MismatchedOpenParen => "Mismatched open parenthesis"@,
        SyntaxErrorValue::MismatchedCloseParen => "Mismatched close parenthesis"@,
        SyntaxErrorValue::EmptyParens => "Empty parentheses"@,
        SyntaxErrorValue::MissingOperand(t) => spec_token_desc(t)
            + " is missing a required operand"@,
        SyntaxErrorValue::CommaWithoutOperandBefore => "Comma must follow an operand"@,
        SyntaxErrorValue::CommaWithoutOperandAfter => "Comma must be followed by an operand"@,
        SyntaxErrorValue::FunctionWithoutParensOrArgument(f) => {
            "Functions without parentheses are assumed to have a single argument, but none was found for "@
                + spec_function_desc(f)
        },
        SyntaxErrorValue::MissingOperator => "Missing an operator between two consecutive operands"@,
    }
}

impl SyntaxError {
    /// The error's display text.
    pub fn message(&self) -> (r: String)
        ensures
            r@ == spec_syntax_error_message(self@),
    {
        proof {
            reveal_strlit("Unexpected token encountered: ");
            reveal_strlit(" is missing a required operand");
            reveal_strlit(
                "Functions without parentheses are assumed to have a single argument, but none was found for ",
            );
        }
        match self {
            SyntaxError::NoInput => String::from_str("No input"),
            SyntaxError::UnexpectedToken(t) => {
                let mut m = String::from_str("Unexpected token encountered: ");
                m.append(t.describe().as_str());
                m
            },
            SyntaxError::MismatchedOpenParen => String::from_str("Mismatched open parenthesis"),
            SyntaxError::MismatchedCloseParen => String::from_str("Mismatched close parenthesis"),
            SyntaxError::EmptyParens => String::from_str("Empty parentheses"),
            SyntaxError::MissingOperand(t) => {
                let mut m = t.describe();
                m.append(" is missing a required operand");
                m
            },
            SyntaxError::CommaWithoutOperandBefore => {
                String::from_str("Comma must follow an operand")
            },
            SyntaxError::CommaWithoutOperandAfter => {
                String::from_str("Comma must be followed by an operand")
            },
            SyntaxError::FunctionWithoutParensOrArgument(f) => {
                let mut m = String::from_str(
                    "Functions without parentheses are assumed to have a single argument, but none was found for ",
                );
                m.append(f.describe().as_str());
                m
            },
            SyntaxError::MissingOperator => {
                String::from_str("Missing an operator between two consecutive operands")
            },
        }
    }
}

/// A semantic error during evaluation.
#[derive(Clone, Debug)]
pub enum MathExecutionError {
    UnknownVariable(String),
    DivisionByZero,
    FunctionNeedsArguments(FunctionNameToken),
    Unimplemented,
    ImaginaryResult,
}

/// The mathematical view of a `MathExecutionError`.
pub ghost enum MathExecutionErrorValue {
    UnknownVariable(Seq<char>),
    DivisionByZero,
    FunctionNeedsArguments(FunctionNameToken),
    Unimplemented,
    ImaginaryResult,
}

impl View for MathExecutionError {
    type V = MathExecutionErrorValue;

    open spec fn view(&self) -> MathExecutionErrorValue {
        match self {
            MathExecutionError::UnknownVariable(s) => {
                MathExecutionErrorValue::UnknownVariable(s@)
            },
            MathExecutionError::DivisionByZero => MathExecutionErrorValue::DivisionByZero,
            MathExecutionError::FunctionNeedsArguments(f) => {
                MathExecutionErrorValue::FunctionNeedsArguments(*f)
            },
            MathExecutionError::Unimplemented => MathExecutionErrorValue::Unimplemented,
            MathExecutionError::ImaginaryResult => MathExecutionErrorValue::ImaginaryResult,
        }
    }
}

/// The display text of a `MathExecutionError` over its mathematical view.
pub open spec fn spec_math_error_message(e: MathExecutionErrorValue) -> Seq<char> {
    match e {
        MathExecutionErrorValue::UnknownVariable(name) => "Unknown variable: "@ + name,
        MathExecutionErrorValue::DivisionByZero => "Cannot divide by 0"@,
        MathExecutionErrorValue::FunctionNeedsArguments(f) => spec_function_desc(f)
            + " has no arguments but requires them"@,
        MathExecutionErrorValue::Unimplemented => {
            "Encountered operation that is not yet supported"@
        },
        MathExecutionErrorValue::ImaginaryResult => {
            "Result would be an imaginary number"@
        },
    }
}

impl MathExecutionError {
    /// The error's display text.
    pub fn message(&self) -> (r: String)
        ensures
            r@ == spec_math_error_message(self@),
    {
        proof {
            reveal_strlit("Unknown variable: ");
            reveal_strlit(" has no arguments but requires them");
        }
        match self {
            MathExecutionError::UnknownVariable(name) => {
                let mut m = String::from_str("Unknown variable: ");
                m.append(name.as_str());
                m
            },
            MathExecutionError::DivisionByZero => String::from_str("Cannot divide by 0"),
            MathExecutionError::FunctionNeedsArguments(f) => {
                let mut m = f.describe();
                m.append(" has no arguments but requires them");
                m
            },
            MathExecutionError::Unimplemented => {
                String::from_str("Encountered operation that is not yet supported")
            },
            MathExecutionError::ImaginaryResult => {
                String::from_str("Result would be an imaginary number")
            },
        }
    }
}

/// An operation needed a collaborator that the caller did not supply.
#[derive(Clone, Copy, Debug, PartialEq, Eq, Structural)]
pub enum MissingCapabilityError {
    NoVariableStore,
    NoDatabase,
}

/// The display text of a `MissingCapabilityError`.
pub open spec fn spec_capability_error_message(e: MissingCapabilityError) -> Seq<char> {
    match e {
        MissingCapabilityError::NoVariableStore => "Variable store unavailable"@,
        MissingCapabilityError::NoDatabase => "Database unavailable"@,
    }
}

impl MissingCapabilityError {
    /// The error's display text.
    pub fn message(&self) -> (r: String)
        ensures
            r@ == spec_capability_error_message(*self),
    {
        match self {
            MissingCapabilityError::NoVariableStore => {
                String::from_str("Variable store unavailable")
            },
            MissingCapabilityError::NoDatabase => String::from_str("Database unavailable"),
        }
    }
}

impl CalculatorFailure {
    /// An input error from a positioned parse error.
    pub fn from_parse_error(e: Positioned<ParseError>) -> (r: CalculatorFailure)
        ensures
            r matches CalculatorFailure::InputError(m) && m.value@ == spec_parse_error_message(
                e.value@,
            ) && m.maybe_position == Some(e.position),
    {
        let message = e.value.message();
        CalculatorFailure::InputError(MaybePositioned::new_positioned(message, e.position))
    }

    /// An input error from a positioned syntax error.
    pub fn from_syntax_error(e: Positioned<SyntaxError>) -> (r: CalculatorFailure)
        ensures
            r matches CalculatorFailure::InputError(m) && m.value@ == spec_syntax_error_message(
                e.value@,
            ) && m.maybe_position == Some(e.position),
    {
        let message = e.value.message();
        CalculatorFailure::InputError(MaybePositioned::new_positioned(message, e.position))
    }

    /// An input error from a positioned evaluation error.
    pub fn from_math_error(e: Positioned<MathExecutionError>) -> (r: CalculatorFailure)
        ensures
            r matches CalculatorFailure::InputError(m) && m.value@ == spec_math_error_message(
                e.value@,
            ) && m.maybe_position == Some(e.position),
    {
        let message = e.value.message();
        CalculatorFailure::InputError(MaybePositioned::new_positioned(message, e.position))
    }

    /// An input error from a positioned missing-capability error.
    pub fn from_capability_error(e: Positioned<MissingCapabilityError>) -> (r: CalculatorFailure)
        ensures
            r matches CalculatorFailure::InputError(m) && m.value@
                == spec_capability_error_message(e.value) && m.maybe_position == Some(e.position),
    {
        let message = e.value.message();
        CalculatorFailure::InputError(MaybePositioned::new_positioned(message, e.position))
    }
}

} // verus!
