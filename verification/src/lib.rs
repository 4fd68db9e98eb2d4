//! Parser and evaluator for general recursive functions: functions built
//! from zero, successor, projection, composition, primitive recursion and
//! bounded minimization. A script defines named functions; a query names one
//! of them with the arguments to evaluate it on.

pub mod builder;
pub mod error;
pub mod eval;
pub mod function;
pub mod grammar;
pub mod number;
pub mod parser;
pub mod program;
pub mod query;
pub mod shape;
pub mod syntax;
pub mod table;

pub use builder::parse_recur_function;
pub use error::RecurFunctionParseError;
pub use eval::execute;
pub use function::{RecurFunction, RecurFunctionType};
pub use parser::{RecurFunctionGrammar, SyntaxError};
pub use program::{define_functions, parse_recur_functions};
pub use query::{execute_query, parse_query, query_from_pairs, Query};
pub use syntax::{Pair, Rule, Span};
pub use table::NameTable;
