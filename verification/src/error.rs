//! The failures of the tree builder and of the query builder.

use vstd::prelude::*;

verus! {

/// Errors which can appear when parsing.
#[derive(Debug)]
pub enum RecurFunctionParseError {
    /// Error which signals that argument number in projection function is invalid.
    InvalidProjectionArgumentNumber(String),
    /// Error which signals about invalid number of functions in composition function.
    InvalidCompositionFunctionsCount(String),
    /// Error which signals that base function in primitive function has invalid arguments count.
    InvalidPrimitiveBaseArgumentsCount(String),
    /// Error which signals that step function in primitive function has invalid arguments count.
    InvalidPrimitiveStepArgumentsCount(String),
    /// Error which signals that function has invalid arguments count.
    InvalidArgumentsCount(String),
    /// Error which signals that function was expected, but not found.
    FunctionExpected(String),
    /// Error which signals that integer was expected, but not found.
    IntegerExpected(String),
    /// Error which signals that identifier was expected, but not found.
    IdentifierExpected(String),
    /// Error which signals that string cannot be converted to u32.
    ParseIntError(std::num::ParseIntError),
    /// Error which signals that identifier is undefined.
    UndefinedIdentifier(String),
    /// Error which signals that identifier already exists.
    IdentifierAlreadyExists(String),
    /// Error which signals that rule is undefined.
    UndefinedRule(String),
}

/// The model of [`RecurFunctionParseError`]: each failure with the source
/// fragment that it is about.
pub enum Failure {
    /// A projection with the index 0.
    InvalidProjectionArgumentNumber(Seq<char>),
    /// A composition with more or fewer components than its base takes
    /// arguments.
    InvalidCompositionFunctionsCount(Seq<char>),
    /// A primitive recursion whose base does not take the parameters.
    InvalidPrimitiveBaseArgumentsCount(Seq<char>),
    /// A primitive recursion whose step takes fewer than two arguments.
    InvalidPrimitiveStepArgumentsCount(Seq<char>),
    /// A projection beyond its arity, components of different arities, a
    /// minimization of a base with fewer than two arguments, or a query
    /// with the wrong number of arguments.
    InvalidArgumentsCount(Seq<char>),
    /// A node that lacks a function inside it.
    FunctionExpected(Seq<char>),
    /// A node that lacks an integer inside it.
    IntegerExpected(Seq<char>),
    /// A node that lacks a name inside it.
    IdentifierExpected(Seq<char>),
    /// A numeral that denotes no 32-bit number.
    ParseIntError,
    /// A name that is not defined.
    UndefinedIdentifier(Seq<char>),
    /// A name that is defined already.
    IdentifierAlreadyExists(Seq<char>),
    /// A node of a rule that denotes no function, or a text that the
    /// grammar does not accept.
    UndefinedRule(Seq<char>),
}

impl View for RecurFunctionParseError {
    type V = Failure;

    open spec fn view(&self) -> Failure {
        match self {
            RecurFunctionParseError::InvalidProjectionArgumentNumber(text) => {
                Failure::InvalidProjectionArgumentNumber(text@)
            },
            RecurFunctionParseError::InvalidCompositionFunctionsCount(text) => {
                Failure::InvalidCompositionFunctionsCount(text@)
            },
            RecurFunctionParseError::InvalidPrimitiveBaseArgumentsCount(text) => {
                Failure::InvalidPrimitiveBaseArgumentsCount(text@)
            },
            RecurFunctionParseError::InvalidPrimitiveStepArgumentsCount(text) => {
                Failure::InvalidPrimitiveStepArgumentsCount(text@)
            },
            RecurFunctionParseError::InvalidArgumentsCount(text) => Failure::InvalidArgumentsCount(
                text@,
            ),
            RecurFunctionParseError::FunctionExpected(text) => Failure::FunctionExpected(text@),
            RecurFunctionParseError::IntegerExpected(text) => Failure::IntegerExpected(text@),
            RecurFunctionParseError::IdentifierExpected(text) => Failure::IdentifierExpected(text@),
            RecurFunctionParseError::ParseIntError(_) => Failure::ParseIntError,
            RecurFunctionParseError::UndefinedIdentifier(text) => Failure::UndefinedIdentifier(
                text@,
            ),
            RecurFunctionParseError::IdentifierAlreadyExists(text) => {
                Failure::IdentifierAlreadyExists(text@)
            },
            RecurFunctionParseError::UndefinedRule(text) => Failure::UndefinedRule(text@),
        }
    }
}

impl From<std::num::ParseIntError> for RecurFunctionParseError {
    /// The failure to read a numeral, as a parse error.
    fn from(error: std::num::ParseIntError) -> (result: Self) {
        RecurFunctionParseError::ParseIntError(error)
    }
}

impl vstd::std_specs::convert::FromSpecImpl<std::num::ParseIntError> for RecurFunctionParseError {
    open spec fn obeys_from_spec() -> bool {
        true
    }

    open spec fn from_spec(error: std::num::ParseIntError) -> Self {
        RecurFunctionParseError::ParseIntError(error)
    }
}

} // verus!
