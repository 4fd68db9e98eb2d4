//! Queries: a defined name with the arguments to evaluate it on.

use crate::error::{Failure, RecurFunctionParseError};
use crate::eval::{evaluate, execute, lemma_number_is_value};
use crate::function::Function;
use crate::grammar::{parse_at_start, query_at};
use crate::number::{numeral, parse_u32};
use crate::parser::RecurFunctionGrammar;
use crate::shape::{is_name, is_query_shape, lemma_name_is_query, lemma_query_shape};
use crate::syntax::{models, Node, Pair, Rule};
use crate::table::NameTable;
use vstd::prelude::*;

verus! {

/// A name and the arguments for it: the model of [`Query`].
pub struct Request {
    /// The name of the function that is asked for.
    pub identifier: Seq<char>,
    /// The arguments to evaluate the function on.
    pub arguments: Seq<u32>,
}

/// Struct which describes query.
#[derive(Debug)]
pub struct Query {
    /// identifier of function to use for query.
    identifier: String,
    /// arguments for function.
    arguments: Vec<u32>,
}

impl View for Query {
    type V = Request;

    closed spec fn view(&self) -> Request {
        Request { identifier: self.identifier@, arguments: self.arguments@ }
    }
}

impl Query {
    /// The name of the function that is asked for.
    pub fn identifier(&self) -> (identifier: &str)
        ensures
            identifier@ == self@.identifier,
    {
        self.identifier.as_str()
    }

    /// The arguments to evaluate the function on.
    pub fn arguments(&self) -> (arguments: &Vec<u32>)
        ensures
            arguments@ == self@.arguments,
    {
        &self.arguments
    }
}

/// The result of reading further arguments when `found` were read before.
pub open spec fn following(found: Seq<u32>, further: Result<Seq<u32>, Failure>) -> Result<
    Seq<u32>,
    Failure,
> {
    match further {
        Ok(others) => Ok(found + others),
        Err(failure) => Err(failure),
    }
}

/// The arguments that the nodes of `children` from `from` on denote, up to
/// the end of the input: each is an integer that denotes a 32-bit number.
pub open spec fn arguments_from(children: Seq<Node>, from: nat) -> Result<Seq<u32>, Failure>
    decreases children.len() - from,
{
    if from >= children.len() {
        Ok(seq![])
    } else {
        let argument = children[from as int];
        if argument.rule == Rule::EOI {
            Ok(seq![])
        } else if argument.rule != Rule::integer {
            Err(Failure::IntegerExpected(argument.text))
        } else {
            match numeral(argument.text) {
                Some(value) => following(seq![value], arguments_from(children, from + 1)),
                None => Err(Failure::ParseIntError),
            }
        }
    }
}

/// Tells whether `count` arguments may be given to `function`: as many as
/// its arity, or none where it is a number.
pub open spec fn accepts(function: Function, count: nat) -> bool {
    (function.constant is Some && count == 0) || function.arity == count
}

/// The query that `children` make, the nodes inside the node of a query
/// whose text is `input`, where `names` are defined: the first is the name,
/// which must be defined, the others are the arguments, which the function
/// must accept.
pub open spec fn request(children: Seq<Node>, input: Seq<char>, names: Map<Seq<char>, Function>) -> Result<
    Request,
    Failure,
> {
    if children.len() < 1 {
        Err(Failure::IdentifierExpected(input))
    } else if children[0].rule != Rule::identifier {
        Err(Failure::IdentifierExpected(children[0].text))
    } else if !names.contains_key(children[0].text) {
        Err(Failure::UndefinedIdentifier(input))
    } else {
        match arguments_from(children, 1) {
            Ok(arguments) => if accepts(names[children[0].text], arguments.len()) {
                Ok(Request { identifier: children[0].text, arguments })
            } else {
                Err(Failure::InvalidArgumentsCount(input))
            },
            Err(failure) => Err(failure),
        }
    }
}

/// The query that the text `input` makes where `names` are defined:
/// `input` must be a query by the grammar.
pub open spec fn query(input: Seq<char>, names: Map<Seq<char>, Function>) -> Result<
    Request,
    Failure,
> {
    match parse_at_start(Rule::query, input) {
        Some(nodes) => if nodes.len() > 0 {
            request(nodes[0].children, input, names)
        } else {
            Err(Failure::UndefinedRule(input))
        },
        None => Err(Failure::UndefinedRule(input)),
    }
}

/// The model of the outcome of reading a query.
pub open spec fn query_outcome(result: Result<Query, RecurFunctionParseError>) -> Result<
    Request,
    Failure,
> {
    match result {
        Ok(query) => Ok(query@),
        Err(error) => Err(error@),
    }
}

/// The answer to `request` where `names` are defined: nothing for an
/// unknown name, the number itself for a function that is a number, and
/// otherwise the value of the function on the arguments.
pub open spec fn answer(request: Request, names: Map<Seq<char>, Function>) -> Option<u32> {
    if names.contains_key(request.identifier) {
        let function = names[request.identifier];
        match function.constant {
            Some(number) => Some(number),
            None => evaluate(function, request.arguments),
        }
    } else {
        None
    }
}

/// A query for a function that is a number may come without arguments,
/// whatever the arity of the function, and its answer is that number.
pub proof fn lemma_number_without_arguments(
    children: Seq<Node>,
    input: Seq<char>,
    names: Map<Seq<char>, Function>,
)
    requires
        children.len() >= 1,
        children[0].rule == Rule::identifier,
        names.contains_key(children[0].text),
        names[children[0].text].constant is Some,
        children.len() == 1 || children[1].rule == Rule::EOI,
    ensures
        request(children, input, names) == Ok::<Request, Failure>(
            Request { identifier: children[0].text, arguments: seq![] },
        ),
        answer(Request { identifier: children[0].text, arguments: seq![] }, names)
            == names[children[0].text].constant,
{
}

/// The name of a function that is a number is by itself a query, whatever
/// the arity of the function, and the answer to it is that number.
pub proof fn lemma_number_by_name(name: Seq<char>, names: Map<Seq<char>, Function>)
    requires
        is_name(name),
        names.contains_key(name),
        names[name].constant is Some,
    ensures
        query(name, names) == Ok::<Request, Failure>(
            Request { identifier: name, arguments: seq![] },
        ),
        answer(Request { identifier: name, arguments: seq![] }, names) == names[name].constant,
{
    lemma_name_is_query(name);
    let children = query_at(name)->0.children;
    assert(children[0].text =~= name);
}

/// The answer to a query for a function put together by the rules is the
/// value of the function on the arguments of the query: where the function
/// is a number, that number is its value.
pub proof fn lemma_answer_is_value(request: Request, names: Map<Seq<char>, Function>)
    requires
        names.contains_key(request.identifier),
        names[request.identifier].valid(),
    ensures
        answer(request, names) == evaluate(names[request.identifier], request.arguments),
{
    let function = names[request.identifier];
    if function.constant is Some {
        lemma_number_is_value(function, request.arguments);
    }
}

/// The arguments of a query in the shape that the grammar gives them are
/// read, unless one of them denotes no 32-bit number.
proof fn lemma_arguments_failures(children: Seq<Node>, from: nat)
    requires
        is_query_shape(children),
        from >= 1,
    ensures
        arguments_from(children, from) matches Err(failure) ==> failure is ParseIntError,
    decreases children.len() - from,
{
    if from < children.len() - 1 {
        lemma_arguments_failures(children, from + 1);
    }
}

/// A query fails with `UndefinedRule` where its text is no query by the
/// grammar, and there only. A text that is a query fails only where its
/// name is not defined, where the function does not accept as many
/// arguments, or where an argument denotes no 32-bit number.
pub proof fn lemma_query_failures(input: Seq<char>, names: Map<Seq<char>, Function>)
    ensures
        parse_at_start(Rule::query, input) is None <==> query(input, names) == Err::<
            Request,
            Failure,
        >(Failure::UndefinedRule(input)),
        query(input, names) matches Err(failure) ==> {
            ||| failure == Failure::UndefinedRule(input)
            ||| failure == Failure::UndefinedIdentifier(input)
            ||| failure == Failure::InvalidArgumentsCount(input)
            ||| failure is ParseIntError
        },
{
    lemma_query_shape(input);
    match query_at(input) {
        Some(node) => {
            lemma_arguments_failures(node.children, 1);
        },
        None => {},
    }
}

/// Reads the arguments of a query from `pairs`, the nodes inside its node,
/// after the first.
fn read_arguments(pairs: &Vec<Pair>) -> (result: Result<Vec<u32>, RecurFunctionParseError>)
    ensures
        match result {
            Ok(arguments) => arguments_from(models(pairs@), 1) == Ok::<Seq<u32>, Failure>(
                arguments@,
            ),
            Err(error) => arguments_from(models(pairs@), 1) == Err::<Seq<u32>, Failure>(error@),
        },
{
    let mut arguments: Vec<u32> = Vec::new();
    let mut i: usize = 1;
    while i < pairs.len()
        invariant
            1 <= i,
            arguments_from(models(pairs@), 1) == following(
                arguments@,
                arguments_from(models(pairs@), i as nat),
            ),
        decreases pairs.len() - i,
    {
        let argument = &pairs[i];
        if argument.as_rule() == Rule::EOI {
            return Ok(arguments);
        }
        if argument.as_rule() != Rule::integer {
            return Err(RecurFunctionParseError::IntegerExpected(argument.as_str().to_owned()));
        }
        let integer = match parse_u32(argument.as_str()) {
            Ok(integer) => integer,
            Err(error) => {
                return Err(RecurFunctionParseError::from(error));
            },
        };
        let ghost before = arguments@;
        let ghost rest = arguments_from(models(pairs@), (i + 1) as nat);
        arguments.push(integer);
        proof {
            match rest {
                Ok(others) => {
                    assert(before + (seq![integer] + others) =~= arguments@ + others);
                },
                Err(_) => {},
            }
        }
        i += 1;
    }
    Ok(arguments)
}

/// Builds the query of `pairs`, the nodes inside the node of a query, where
/// `input` is the text of the query.
pub fn query_from_pairs(pairs: &Vec<Pair>, input: &str, identifier_functions: &NameTable) -> (result:
    Result<Query, RecurFunctionParseError>)
    ensures
        query_outcome(result) == request(models(pairs@), input@, identifier_functions@),
{
    if pairs.len() < 1 {
        return Err(RecurFunctionParseError::IdentifierExpected(input.to_owned()));
    }
    let name = &pairs[0];
    if name.as_rule() != Rule::identifier {
        return Err(RecurFunctionParseError::IdentifierExpected(name.as_str().to_owned()));
    }
    let identifier = name.as_str().to_owned();
    let function = match identifier_functions.get(name.as_str()) {
        Some(function) => function,
        None => {
            return Err(RecurFunctionParseError::UndefinedIdentifier(input.to_owned()));
        },
    };
    let arguments = match read_arguments(pairs) {
        Ok(arguments) => arguments,
        Err(error) => {
            return Err(error);
        },
    };
    if (function.number().is_some() && arguments.len() == 0) || function.arguments_count() as usize
        == arguments.len() {
        Ok(Query { identifier, arguments })
    } else {
        Err(RecurFunctionParseError::InvalidArgumentsCount(input.to_owned()))
    }
}

/// Parses query input string into Query struct.
///
/// # Arguments
///
/// * `input` - string which includes query.
/// * `identifier_functions` - parsed identifiers and their function, uses for checking existing functions.
///
/// # Returns
///
/// parsed query or RecurFunctionParseError wraped into Result.
pub fn parse_query(input: &str, identifier_functions: &NameTable) -> (result: Result<
    Query,
    RecurFunctionParseError,
>)
    ensures
        query_outcome(result) == query(input@, identifier_functions@),
        result matches Err(error) ==> {
            ||| error@ == Failure::UndefinedRule(input@)
            ||| error@ == Failure::UndefinedIdentifier(input@)
            ||| error@ == Failure::InvalidArgumentsCount(input@)
            ||| error@ is ParseIntError
        },
{
    proof {
        lemma_query_failures(input@, identifier_functions@);
    }
    match RecurFunctionGrammar::parse(Rule::query, input) {
        Ok(pairs) => {
            if pairs.len() > 0 {
                let inner = pairs[0].inner();
                query_from_pairs(inner, input, identifier_functions)
            } else {
                Err(RecurFunctionParseError::UndefinedRule(input.to_owned()))
            }
        },
        Err(_) => Err(RecurFunctionParseError::UndefinedRule(input.to_owned())),
    }
}

/// Parses given query on given possible functions.
///
/// # Arguments
///
/// * `query` - function to execute.
/// * `identifier_functions` - parsed identifiers and their function, uses for checking existing functions.
///
/// # Returns
///
/// Some(u32) if result is defined otherwise None.
pub fn execute_query(query: &Query, identifier_functions: &NameTable) -> (result: Option<u32>)
    ensures
        result == answer(query@, identifier_functions@),
        identifier_functions@.contains_key(query@.identifier)
            && identifier_functions@[query@.identifier].valid() ==> result == evaluate(
            identifier_functions@[query@.identifier],
            query@.arguments,
        ),
{
    proof {
        if identifier_functions@.contains_key(query@.identifier)
            && identifier_functions@[query@.identifier].valid() {
            lemma_answer_is_value(query@, identifier_functions@);
        }
    }
    let function = match identifier_functions.get(query.identifier()) {
        Some(function) => function,
        None => {
            return None;
        },
    };
    if let Some(number) = function.number() {
        return Some(number);
    }
    execute(function, query.arguments())
}

} // verus!
