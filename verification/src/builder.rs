//! The tree builder: from a syntax node and the functions defined so far to
//! a validated function, or to the failure that stops it.

use crate::error::{Failure, RecurFunctionParseError};
use crate::eval::evaluate;
use crate::function::{Function, FunctionKind, RecurFunction, RecurFunctionType};
use crate::shape::is_function_node;
use crate::number::{numeral, parse_u32};
use crate::syntax::{models, Node, Pair, Rule};
use crate::table::NameTable;
use vstd::prelude::*;

verus! {

/// The function that `node` denotes where `names` are defined, or the first
/// failure met when its parts are taken in order.
pub open spec fn build(node: Node, names: Map<Seq<char>, Function>) -> Result<Function, Failure>
    decreases node, 1nat, 0nat,
{
    match node.rule {
        Rule::zero => Ok(Function { kind: FunctionKind::Zero, arity: 1, constant: Some(0) }),
        Rule::successor => Ok(Function { kind: FunctionKind::Successor, arity: 1, constant: None }),
        Rule::projection => projection(node),
        Rule::composition => if node.children.len() < 1 {
            Err(Failure::FunctionExpected(node.text))
        } else {
            match build(node.children[0], names) {
                Ok(base) => match components(node, names, node.children.len()) {
                    Ok(parts) => composition(node.text, base, parts),
                    Err(failure) => Err(failure),
                },
                Err(failure) => Err(failure),
            }
        },
        Rule::primitive => if node.children.len() < 1 {
            Err(Failure::FunctionExpected(node.text))
        } else {
            match build(node.children[0], names) {
                Ok(base) => if node.children.len() < 2 {
                    Err(Failure::FunctionExpected(node.text))
                } else {
                    match build(node.children[1], names) {
                        Ok(step) => primitive(node.text, base, step),
                        Err(failure) => Err(failure),
                    }
                },
                Err(failure) => Err(failure),
            }
        },
        Rule::minimization => if node.children.len() < 1 {
            Err(Failure::FunctionExpected(node.text))
        } else {
            match build(node.children[0], names) {
                Ok(base) => minimization(node, base),
                Err(failure) => Err(failure),
            }
        },
        Rule::identifier => if names.contains_key(node.text) {
            Ok(names[node.text])
        } else {
            Err(Failure::UndefinedIdentifier(node.text))
        },
        Rule::recursive_function => if node.children.len() < 1 {
            Err(Failure::FunctionExpected(node.text))
        } else {
            build(node.children[0], names)
        },
        _ => Err(Failure::UndefinedRule(node.text)),
    }
}

/// The components of the composition `node`, built from its children after
/// the first and before `upto`. Each must have the arity of the first
/// component.
pub open spec fn components(node: Node, names: Map<Seq<char>, Function>, upto: nat) -> Result<
    Seq<Function>,
    Failure,
>
    decreases node, 0nat, upto,
{
    if upto <= 1 || upto > node.children.len() {
        Ok(seq![])
    } else {
        match components(node, names, (upto - 1) as nat) {
            Ok(parts) => match build(node.children[upto - 1], names) {
                Ok(part) => if parts.len() > 0 && part.arity != parts[0].arity {
                    Err(Failure::InvalidArgumentsCount(node.text))
                } else {
                    Ok(parts.push(part))
                },
                Err(failure) => Err(failure),
            },
            Err(failure) => Err(failure),
        }
    }
}

/// The projection that `node` denotes: its first two children are the
/// arity and the index, which lies from 1 to the arity.
pub open spec fn projection(node: Node) -> Result<Function, Failure> {
    if node.children.len() < 1 {
        Err(Failure::IntegerExpected(node.text))
    } else {
        match numeral(node.children[0].text) {
            Some(arity) => if node.children.len() < 2 {
                Err(Failure::IntegerExpected(node.text))
            } else {
                match numeral(node.children[1].text) {
                    Some(index) => if index == 0 {
                        Err(Failure::InvalidProjectionArgumentNumber(node.text))
                    } else if arity < index {
                        Err(Failure::InvalidArgumentsCount(node.text))
                    } else {
                        Ok(
                            Function {
                                kind: FunctionKind::Projection(arity, index),
                                arity,
                                constant: None,
                            },
                        )
                    },
                    None => Err(Failure::ParseIntError),
                }
            },
            None => Err(Failure::ParseIntError),
        }
    }
}

/// The composition of `base` with `parts`, written as `text`: there must be
/// as many parts as `base` takes arguments. Its arity is that of the parts.
pub open spec fn composition(text: Seq<char>, base: Function, parts: Seq<Function>) -> Result<
    Function,
    Failure,
> {
    if parts.len() != base.arity {
        Err(Failure::InvalidCompositionFunctionsCount(text))
    } else {
        Ok(
            Function {
                kind: FunctionKind::Composition(Box::new(base), parts),
                arity: if parts.len() > 0 {
                    parts[0].arity
                } else {
                    0
                },
                constant: Function::folded(base, parts),
            },
        )
    }
}

/// The primitive recursion from `base` and `step`, written as `text`. The
/// step takes the parameters, the counter and the value before: two
/// arguments at least. The base takes the parameters; where there are none
/// it is a number of arity 1. The result takes the parameters and the
/// recursion argument.
pub open spec fn primitive(text: Seq<char>, base: Function, step: Function) -> Result<
    Function,
    Failure,
> {
    if step.arity < 2 {
        Err(Failure::InvalidPrimitiveStepArgumentsCount(text))
    } else if step.arity == 2 && (base.arity != 1 || base.constant is None) {
        Err(Failure::InvalidPrimitiveBaseArgumentsCount(text))
    } else if step.arity > 2 && base.arity != step.arity - 2 {
        Err(Failure::InvalidPrimitiveBaseArgumentsCount(text))
    } else {
        Ok(
            Function {
                kind: FunctionKind::PrimitiveRecursion(Box::new(base), Box::new(step)),
                arity: (step.arity - 1) as u32,
                constant: None,
            },
        )
    }
}

/// The minimization that `node` denotes, given its base: the base takes two
/// arguments at least, and only then is the bound read, the second child of
/// `node`. The result takes one argument fewer than the base.
pub open spec fn minimization(node: Node, base: Function) -> Result<Function, Failure> {
    if base.arity <= 1 {
        Err(Failure::InvalidArgumentsCount(node.text))
    } else if node.children.len() < 2 {
        Err(Failure::IntegerExpected(node.text))
    } else {
        match numeral(node.children[1].text) {
            Some(bound) => Ok(
                Function {
                    kind: FunctionKind::Minimization(Box::new(base), bound),
                    arity: (base.arity - 1) as u32,
                    constant: None,
                },
            ),
            None => Err(Failure::ParseIntError),
        }
    }
}

/// Tells whether every function that `names` defines is put together by the
/// rules.
pub open spec fn all_valid(names: Map<Seq<char>, Function>) -> bool {
    forall|name: Seq<char>| names.contains_key(name) ==> (#[trigger] names[name]).valid()
}

/// What is built from functions put together by the rules is put together
/// by the rules.
pub proof fn lemma_build_valid(node: Node, names: Map<Seq<char>, Function>)
    requires
        all_valid(names),
    ensures
        build(node, names) matches Ok(function) ==> function.valid(),
    decreases node, 1nat, 0nat,
{
    if node.children.len() >= 1 {
        lemma_build_valid(node.children[0], names);
    }
    if node.children.len() >= 2 {
        lemma_build_valid(node.children[1], names);
    }
    if node.rule == Rule::composition {
        lemma_components_valid(node, names, node.children.len());
        lemma_components_arity(node, names, node.children.len());
    }
}

/// The components of a composition are put together by the rules where
/// the functions that they are built from are.
proof fn lemma_components_valid(node: Node, names: Map<Seq<char>, Function>, upto: nat)
    requires
        all_valid(names),
        upto <= node.children.len(),
    ensures
        components(node, names, upto) matches Ok(parts) ==> forall|j: int|
            0 <= j < parts.len() ==> (#[trigger] parts[j]).valid(),
    decreases node, 0nat, upto,
{
    if upto > 1 {
        lemma_components_valid(node, names, (upto - 1) as nat);
        lemma_build_valid(node.children[upto - 1], names);
    }
}

/// A projection whose index lies from 1 to its arity is built, and on as
/// many arguments as its arity it gives the argument at the index, counted
/// from 1.
pub proof fn lemma_projection_selects(
    node: Node,
    names: Map<Seq<char>, Function>,
    arity: u32,
    index: u32,
    args: Seq<u32>,
)
    requires
        node.rule == Rule::projection,
        node.children.len() >= 2,
        numeral(node.children[0].text) == Some(arity),
        numeral(node.children[1].text) == Some(index),
        1 <= index <= arity,
        args.len() == arity,
    ensures
        build(node, names) matches Ok(function) && function.arity == arity && evaluate(
            function,
            args,
        ) == Some(args[index - 1]),
{
}

/// A composition that is built has the arity of each of its components, and
/// as many components as its base takes arguments.
pub proof fn lemma_composition_arity(node: Node, names: Map<Seq<char>, Function>)
    requires
        node.rule == Rule::composition,
    ensures
        build(node, names) matches Ok(function) ==> {
            &&& function.kind matches FunctionKind::Composition(base, parts)
            &&& parts.len() == base.arity
            &&& parts.len() == node.children.len() - 1
            &&& forall|j: int| 0 <= j < parts.len() ==> (#[trigger] parts[j]).arity == function.arity
        },
{
    if node.children.len() >= 1 {
        lemma_components_arity(node, names, node.children.len());
    }
}

/// The components of a composition have one arity and are as many as the
/// children that they are built from, each built from its child.
proof fn lemma_components_arity(node: Node, names: Map<Seq<char>, Function>, upto: nat)
    requires
        upto <= node.children.len(),
    ensures
        components(node, names, upto) matches Ok(parts) ==> {
            &&& parts.len() == if upto >= 1 {
                upto - 1
            } else {
                0
            }
            &&& forall|j: int|
                0 <= j < parts.len() ==> build(node.children[j + 1], names) == Ok::<
                    Function,
                    Failure,
                >(#[trigger] parts[j])
            &&& forall|j: int| 0 <= j < parts.len() ==> (#[trigger] parts[j]).arity == parts[0].arity
        },
    decreases upto,
{
    if upto > 1 {
        lemma_components_arity(node, names, (upto - 1) as nat);
    }
}

/// A composition whose components do not all have one arity is not built:
/// it fails with `InvalidArgumentsCount`, whatever follows the component
/// that differs. The children at `one` and `other` are two components of
/// different arity; the base is built, and so is every component up to the
/// second of the two.
pub proof fn lemma_composition_mismatch(
    node: Node,
    names: Map<Seq<char>, Function>,
    one: int,
    other: int,
)
    requires
        node.rule == Rule::composition,
        1 <= one < other < node.children.len(),
        forall|j: int| 0 <= j <= other ==> (#[trigger] build(node.children[j], names)) is Ok,
        build(node.children[one], names)->Ok_0.arity != build(node.children[other], names)->Ok_0.arity,
    ensures
        build(node, names) == Err::<Function, Failure>(Failure::InvalidArgumentsCount(node.text)),
{
    let upto = (other + 1) as nat;
    lemma_components_arity(node, names, upto);
    lemma_components_outcome(node, names, upto);
    assert(build(node.children[0], names) is Ok);
    match components(node, names, upto) {
        Ok(parts) => {
            assert(build(node.children[one - 1 + 1], names) == Ok::<Function, Failure>(
                parts[one - 1],
            ));
        },
        Err(_) => {
            lemma_components_failure(node, names, upto, node.children.len());
        },
    }
}

/// Where each of the first components of a composition is built, the
/// components as a whole are built, or fail with `InvalidArgumentsCount`.
proof fn lemma_components_outcome(node: Node, names: Map<Seq<char>, Function>, upto: nat)
    requires
        upto <= node.children.len(),
        forall|j: int| 0 <= j < upto ==> (#[trigger] build(node.children[j], names)) is Ok,
    ensures
        components(node, names, upto) matches Err(failure) ==> failure
            == Failure::InvalidArgumentsCount(node.text),
    decreases upto,
{
    if upto > 1 {
        lemma_components_outcome(node, names, (upto - 1) as nat);
        assert(build(node.children[upto - 1], names) is Ok);
    }
}

/// A minimization over a base that takes fewer than two arguments is not
/// built: it fails with `InvalidArgumentsCount`, whatever its bound is.
pub proof fn lemma_minimization_needs_two_arguments(node: Node, names: Map<Seq<char>, Function>)
    requires
        node.rule == Rule::minimization,
        node.children.len() >= 1,
        build(node.children[0], names) matches Ok(base) && base.arity <= 1,
    ensures
        build(node, names) == Err::<Function, Failure>(Failure::InvalidArgumentsCount(node.text)),
{
}

/// The successor function composed with a function of arity 1 that is the
/// number `number` is the number `number + 1`, as long as that is a 32-bit
/// number.
pub proof fn lemma_successor_of_number(
    node: Node,
    names: Map<Seq<char>, Function>,
    number: u32,
)
    requires
        node.rule == Rule::composition,
        node.children.len() == 2,
        build(node.children[0], names) matches Ok(base) && base.kind is Successor && base.arity
            == 1,
        build(node.children[1], names) matches Ok(part) && part.arity == 1 && part.constant
            == Some(number),
        number < u32::MAX,
    ensures
        build(node, names) matches Ok(function) && function.arity == 1 && function.constant
            == Some((number + 1) as u32),
{
    assert(components(node, names, 1) == Ok::<Seq<Function>, Failure>(seq![]));
    let part = build(node.children[1], names)->Ok_0;
    assert(components(node, names, 2) == Ok::<Seq<Function>, Failure>(seq![].push(part)));
}

/// The syntax tree of the number `depth`: `$z` under `depth` compositions
/// with `$s`.
pub open spec fn number_node(depth: nat) -> Node
    decreases depth,
{
    if depth == 0 {
        Node { rule: Rule::zero, text: seq![], start: 0, end: 0, children: seq![] }
    } else {
        Node {
            rule: Rule::composition,
            text: seq![],
            start: 0,
            end: 0,
            children: seq![
                Node { rule: Rule::successor, text: seq![], start: 0, end: 0, children: seq![] },
                number_node((depth - 1) as nat),
            ],
        }
    }
}

/// A chain of compositions with the successor function over zero is the
/// number of its depth.
pub proof fn lemma_chain_is_its_depth(depth: nat, names: Map<Seq<char>, Function>)
    requires
        depth <= u32::MAX,
    ensures
        build(number_node(depth), names) matches Ok(function) && function.arity == 1
            && function.constant == Some(depth as u32),
    decreases depth,
{
    if depth > 0 {
        lemma_chain_is_its_depth((depth - 1) as nat, names);
        let node = number_node(depth);
        lemma_successor_of_number(node, names, (depth - 1) as u32);
    }
}

/// Tells whether `failure` is one that the rules of functions give: a
/// wrong arity, index or count, a name that is not defined, or a numeral
/// that denotes no 32-bit number.
pub open spec fn by_the_rules(failure: Failure) -> bool {
    ||| failure is InvalidProjectionArgumentNumber
    ||| failure is InvalidCompositionFunctionsCount
    ||| failure is InvalidPrimitiveBaseArgumentsCount
    ||| failure is InvalidPrimitiveStepArgumentsCount
    ||| failure is InvalidArgumentsCount
    ||| failure is UndefinedIdentifier
    ||| failure is ParseIntError
}

/// A function as the grammar yields it lacks no part: where it is not
/// built, it is by the rules of functions.
pub proof fn lemma_function_node_failures(node: Node, names: Map<Seq<char>, Function>)
    requires
        is_function_node(node),
    ensures
        build(node, names) matches Err(failure) ==> by_the_rules(failure),
    decreases node, 1nat,
{
    let kind = node.children[0];
    match kind.rule {
        Rule::composition => {
            lemma_function_node_failures(kind.children[0], names);
            lemma_components_failures(kind, names, kind.children.len());
            assert(build(node, names) == build(kind, names));
        },
        Rule::primitive => {
            lemma_function_node_failures(kind.children[0], names);
            lemma_function_node_failures(kind.children[1], names);
        },
        Rule::minimization => {
            lemma_function_node_failures(kind.children[0], names);
        },
        _ => {},
    }
}

/// The components of a composition as the grammar yields it fail only by
/// the rules of functions.
proof fn lemma_components_failures(node: Node, names: Map<Seq<char>, Function>, upto: nat)
    requires
        upto <= node.children.len(),
        forall|j: int| 0 <= j < node.children.len() ==> is_function_node(#[trigger] node.children[j]),
    ensures
        components(node, names, upto) matches Err(failure) ==> by_the_rules(failure),
    decreases node, 0nat, upto,
{
    if upto > 1 {
        lemma_components_failures(node, names, (upto - 1) as nat);
        lemma_function_node_failures(node.children[upto - 1], names);
    }
}

/// The model of the outcome of a build.
pub open spec fn outcome(result: Result<RecurFunction, RecurFunctionParseError>) -> Result<
    Function,
    Failure,
> {
    match result {
        Ok(function) => Ok(function@),
        Err(error) => Err(error@),
    }
}

/// Parses recursive function pair into RecurFunction struct.
///
/// # Arguments
///
/// * `pair` - syntax node that is recursive function.
/// * `identifier_functions` - parsed identifiers and their function, uses for checking existing functions.
///
/// # Returns
///
/// The parsed recursive function or RecurFunctionParseError wraped in Result.
pub fn parse_recur_function(pair: Pair, identifier_functions: &NameTable) -> (result: Result<
    RecurFunction,
    RecurFunctionParseError,
>)
    ensures
        outcome(result) == build(pair@, identifier_functions@),
{
    build_function(&pair, identifier_functions)
}

/// Builds the function that `pair` denotes where `identifier_functions` are
/// defined, reading the node and the nodes inside it where they are.
pub(crate) fn build_function(pair: &Pair, identifier_functions: &NameTable) -> (result: Result<
    RecurFunction,
    RecurFunctionParseError,
>)
    ensures
        outcome(result) == build(pair@, identifier_functions@),
    decreases pair@, 1nat,
{
    let inner = pair.inner();
    match pair.as_rule() {
        Rule::zero => Ok(RecurFunction::new(RecurFunctionType::Zero, 1, Some(0))),
        Rule::successor => Ok(RecurFunction::new(RecurFunctionType::Successor, 1, None)),
        Rule::projection => parse_projection(pair),
        Rule::composition => {
            if inner.len() < 1 {
                return Err(RecurFunctionParseError::FunctionExpected(pair.as_str().to_owned()));
            }
            let base_function = match build_function(&inner[0], identifier_functions) {
                Ok(function) => function,
                Err(error) => {
                    return Err(error);
                },
            };
            let functions = match parse_components(pair, identifier_functions) {
                Ok(functions) => functions,
                Err(error) => {
                    return Err(error);
                },
            };
            compose(pair.as_str(), base_function, functions)
        },
        Rule::primitive => {
            if inner.len() < 1 {
                return Err(RecurFunctionParseError::FunctionExpected(pair.as_str().to_owned()));
            }
            let base_function = match build_function(&inner[0], identifier_functions) {
                Ok(function) => function,
                Err(error) => {
                    return Err(error);
                },
            };
            if inner.len() < 2 {
                return Err(RecurFunctionParseError::FunctionExpected(pair.as_str().to_owned()));
            }
            let step_function = match build_function(&inner[1], identifier_functions) {
                Ok(function) => function,
                Err(error) => {
                    return Err(error);
                },
            };
            recurse(pair.as_str(), base_function, step_function)
        },
        Rule::minimization => {
            if inner.len() < 1 {
                return Err(RecurFunctionParseError::FunctionExpected(pair.as_str().to_owned()));
            }
            let base_function = match build_function(&inner[0], identifier_functions) {
                Ok(function) => function,
                Err(error) => {
                    return Err(error);
                },
            };
            minimize(pair, base_function)
        },
        Rule::identifier => match identifier_functions.get(pair.as_str()) {
            Some(function) => Ok(function.clone()),
            None => Err(RecurFunctionParseError::UndefinedIdentifier(pair.as_str().to_owned())),
        },
        Rule::recursive_function => {
            if inner.len() < 1 {
                return Err(RecurFunctionParseError::FunctionExpected(pair.as_str().to_owned()));
            }
            build_function(&inner[0], identifier_functions)
        },
        _ => Err(RecurFunctionParseError::UndefinedRule(pair.as_str().to_owned())),
    }
}

/// Builds the components of the composition `pair`.
fn parse_components(pair: &Pair, identifier_functions: &NameTable) -> (result: Result<
    Vec<RecurFunction>,
    RecurFunctionParseError,
>)
    ensures
        match result {
            Ok(functions) => components(pair@, identifier_functions@, pair@.children.len()) == Ok::<
                Seq<Function>,
                Failure,
            >(function_models(functions@)),
            Err(error) => components(pair@, identifier_functions@, pair@.children.len()) == Err::<
                Seq<Function>,
                Failure,
            >(error@),
        },
    decreases pair@, 0nat,
{
    let inner = pair.inner();
    let mut functions: Vec<RecurFunction> = Vec::new();
    assert(function_models(functions@) =~= seq![]);
    let mut i: usize = 1;
    while i < inner.len()
        invariant
            1 <= i,
            i <= inner.len() || i == 1,
            models(inner@) == pair@.children,
            i <= inner.len() ==> components(pair@, identifier_functions@, i as nat) == Ok::<
                Seq<Function>,
                Failure,
            >(function_models(functions@)),
            i > inner.len() ==> functions.len() == 0,
        decreases inner.len() - i,
    {
        proof {
            assert(inner[i as int]@ == pair@.children[i as int]);
        }
        let function = match build_function(&inner[i], identifier_functions) {
            Ok(function) => function,
            Err(error) => {
                proof {
                    lemma_components_failure(
                        pair@,
                        identifier_functions@,
                        (i + 1) as nat,
                        pair@.children.len(),
                    );
                }
                return Err(error);
            },
        };
        if functions.len() > 0 && function.arguments_count() != functions[0].arguments_count() {
            proof {
                lemma_components_failure(
                    pair@,
                    identifier_functions@,
                    (i + 1) as nat,
                    pair@.children.len(),
                );
            }
            return Err(RecurFunctionParseError::InvalidArgumentsCount(pair.as_str().to_owned()));
        }
        let ghost before = function_models(functions@);
        functions.push(function);
        assert(function_models(functions@) =~= before.push(function@));
        i += 1;
    }
    proof {
        if i > inner.len() {
            assert(function_models(functions@) =~= seq![]);
        }
    }
    Ok(functions)
}

/// The models of `functions`, in order.
pub open spec fn function_models(functions: Seq<RecurFunction>) -> Seq<Function> {
    Seq::new(functions.len(), |i: int| functions[i]@)
}

/// A failure among the first components is the failure of them all.
proof fn lemma_components_failure(
    node: Node,
    names: Map<Seq<char>, Function>,
    upto: nat,
    all: nat,
)
    requires
        upto <= all <= node.children.len(),
        components(node, names, upto) is Err,
    ensures
        components(node, names, all) == components(node, names, upto),
    decreases all,
{
    if upto < all {
        lemma_components_failure(node, names, upto, (all - 1) as nat);
    }
}

/// Builds the projection that `pair` denotes.
fn parse_projection(pair: &Pair) -> (result: Result<RecurFunction, RecurFunctionParseError>)
    ensures
        outcome(result) == projection(pair@),
{
    let inner = pair.inner();
    if inner.len() < 1 {
        return Err(RecurFunctionParseError::IntegerExpected(pair.as_str().to_owned()));
    }
    let arguments_count = match parse_u32(inner[0].as_str()) {
        Ok(number) => number,
        Err(error) => {
            return Err(RecurFunctionParseError::from(error));
        },
    };
    if inner.len() < 2 {
        return Err(RecurFunctionParseError::IntegerExpected(pair.as_str().to_owned()));
    }
    let argument_number = match parse_u32(inner[1].as_str()) {
        Ok(number) => number,
        Err(error) => {
            return Err(RecurFunctionParseError::from(error));
        },
    };
    if argument_number == 0 {
        return Err(
            RecurFunctionParseError::InvalidProjectionArgumentNumber(pair.as_str().to_owned()),
        );
    }
    if arguments_count < argument_number {
        return Err(RecurFunctionParseError::InvalidArgumentsCount(pair.as_str().to_owned()));
    }
    Ok(
        RecurFunction::new(
            RecurFunctionType::Projection(arguments_count, argument_number),
            arguments_count,
            None,
        ),
    )
}

/// Builds the composition of `base_function` with `functions`.
fn compose(text: &str, base_function: RecurFunction, functions: Vec<RecurFunction>) -> (result:
    Result<RecurFunction, RecurFunctionParseError>)
    ensures
        outcome(result) == composition(text@, base_function@, function_models(functions@)),
{
    if functions.len() != base_function.arguments_count() as usize {
        return Err(RecurFunctionParseError::InvalidCompositionFunctionsCount(text.to_owned()));
    }
    let arguments_count = if functions.len() > 0 {
        functions[0].arguments_count()
    } else {
        0
    };
    let mut number: Option<u32> = None;
    if functions.len() == 1 && arguments_count == 1 {
        if let RecurFunctionType::Successor = base_function.function_type() {
            if let Some(inner_number) = functions[0].number() {
                if inner_number < u32::MAX {
                    number = Some(inner_number + 1);
                }
            }
        }
    }
    let ghost parts = function_models(functions@);
    let kind = RecurFunctionType::Composition(Box::new(base_function), functions);
    assert(kind@->Composition_1 =~= parts);
    Ok(RecurFunction::new(kind, arguments_count, number))
}

/// Builds the primitive recursion from `base_function` and `step_function`.
fn recurse(text: &str, base_function: RecurFunction, step_function: RecurFunction) -> (result:
    Result<RecurFunction, RecurFunctionParseError>)
    ensures
        outcome(result) == primitive(text@, base_function@, step_function@),
{
    let step_arguments = step_function.arguments_count();
    let base_arguments = base_function.arguments_count();
    if step_arguments < 2 {
        return Err(RecurFunctionParseError::InvalidPrimitiveStepArgumentsCount(text.to_owned()));
    }
    if step_arguments == 2 && (base_arguments != 1 || base_function.number().is_none()) {
        return Err(RecurFunctionParseError::InvalidPrimitiveBaseArgumentsCount(text.to_owned()));
    }
    if step_arguments > 2 && base_arguments != step_arguments - 2 {
        return Err(RecurFunctionParseError::InvalidPrimitiveBaseArgumentsCount(text.to_owned()));
    }
    Ok(
        RecurFunction::new(
            RecurFunctionType::Primitive(Box::new(base_function), Box::new(step_function)),
            step_arguments - 1,
            None,
        ),
    )
}

/// Builds the minimization that `pair` denotes, given its base.
fn minimize(pair: &Pair, base_function: RecurFunction) -> (result: Result<
    RecurFunction,
    RecurFunctionParseError,
>)
    ensures
        outcome(result) == minimization(pair@, base_function@),
{
    let base_arguments = base_function.arguments_count();
    if base_arguments <= 1 {
        return Err(RecurFunctionParseError::InvalidArgumentsCount(pair.as_str().to_owned()));
    }
    let inner = pair.inner();
    if inner.len() < 2 {
        return Err(RecurFunctionParseError::IntegerExpected(pair.as_str().to_owned()));
    }
    assert(inner[1]@ == pair@.children[1]);
    let max = match parse_u32(inner[1].as_str()) {
        Ok(max) => max,
        Err(error) => {
            return Err(RecurFunctionParseError::from(error));
        },
    };
    Ok(
        RecurFunction::new(
            RecurFunctionType::Minimization(Box::new(base_function), max),
            base_arguments - 1,
            None,
        ),
    )
}

} // verus!
