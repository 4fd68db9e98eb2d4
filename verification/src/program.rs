//! Scripts: definitions taken in order, each seeing the ones before it.

use crate::builder::{
    all_valid, build, build_function, by_the_rules, lemma_build_valid,
    lemma_function_node_failures,
};
use crate::error::{Failure, RecurFunctionParseError};
use crate::function::Function;
use crate::grammar::{functions_at, parse_at_start};
use crate::parser::RecurFunctionGrammar;
use crate::shape::{is_script_shape, lemma_script_shape};
use crate::syntax::{models, Node, Pair, Rule};
use crate::table::NameTable;
use vstd::prelude::*;

verus! {

/// The table that `table` becomes when the definitions among `children`
/// from `from` on are added in order: a name, then its function, up to the
/// end of the input. A function sees the names defined before it, and no
/// name is defined twice. The first failure ends it.
pub open spec fn define_from(
    children: Seq<Node>,
    from: nat,
    table: Map<Seq<char>, Function>,
    input: Seq<char>,
) -> Result<Map<Seq<char>, Function>, Failure>
    decreases children.len() - from,
{
    if from >= children.len() {
        Ok(table)
    } else {
        let name = children[from as int];
        if name.rule == Rule::EOI {
            Ok(table)
        } else if name.rule != Rule::identifier {
            Err(Failure::IdentifierExpected(name.text))
        } else if table.contains_key(name.text) {
            Err(Failure::IdentifierAlreadyExists(name.text))
        } else if from + 1 >= children.len() {
            Err(Failure::FunctionExpected(input))
        } else {
            let body = children[from as int + 1];
            if body.rule != Rule::recursive_function {
                Err(Failure::FunctionExpected(body.text))
            } else {
                match build(body, table) {
                    Ok(function) => define_from(
                        children,
                        from + 2,
                        table.insert(name.text, function),
                        input,
                    ),
                    Err(failure) => Err(failure),
                }
            }
        }
    }
}

/// The table that the script `input` defines: `input` must be a script by
/// the grammar, and its definitions are added to an empty table.
pub open spec fn script(input: Seq<char>) -> Result<Map<Seq<char>, Function>, Failure> {
    match parse_at_start(Rule::functions, input) {
        Some(nodes) => if nodes.len() > 0 {
            define_from(nodes[0].children, 0, Map::empty(), input)
        } else {
            Err(Failure::UndefinedRule(input))
        },
        None => Err(Failure::UndefinedRule(input)),
    }
}

/// Tells whether each of the definitions of `children` from `from` up to
/// `upto` begins with a node for a name, `upto` being where a definition
/// would begin.
pub open spec fn names_between(children: Seq<Node>, from: nat, upto: nat) -> bool {
    &&& from <= upto <= children.len()
    &&& (upto - from) % 2 == 0
    &&& forall|k: int|
        from <= k < upto && (k - from) % 2 == 0 ==> (#[trigger] children[k]).rule
            == Rule::identifier
}

/// The definitions of a script only add to the table: what was defined
/// before stays defined as it was.
pub proof fn lemma_definitions_kept(
    children: Seq<Node>,
    from: nat,
    table: Map<Seq<char>, Function>,
    input: Seq<char>,
    name: Seq<char>,
)
    requires
        table.contains_key(name),
    ensures
        define_from(children, from, table, input) matches Ok(defined) ==> defined.contains_key(name)
            && defined[name] == table[name],
    decreases children.len() - from,
{
    if from + 1 < children.len() {
        let body = children[from as int + 1];
        match build(body, table) {
            Ok(function) => {
                if !table.contains_key(children[from as int].text) {
                    lemma_definitions_kept(
                        children,
                        from + 2,
                        table.insert(children[from as int].text, function),
                        input,
                        name,
                    );
                }
            },
            Err(_) => {},
        }
    }
}

/// Where a script is processed without failure, each name that it defines
/// is in the table.
pub proof fn lemma_definitions_recorded(
    children: Seq<Node>,
    from: nat,
    table: Map<Seq<char>, Function>,
    input: Seq<char>,
    at: nat,
)
    requires
        from <= at,
        names_between(children, from, at + 2),
    ensures
        define_from(children, from, table, input) matches Ok(defined) ==> defined.contains_key(
            children[at as int].text,
        ),
    decreases children.len() - from,
{
    let name = children[from as int].text;
    let body = children[from as int + 1];
    if !table.contains_key(name) && body.rule == Rule::recursive_function {
        match build(body, table) {
            Ok(function) => {
                let next = table.insert(name, function);
                if at == from {
                    lemma_definitions_kept(children, from + 2, next, input, name);
                } else {
                    lemma_definitions_recorded(children, from + 2, next, input, at);
                }
            },
            Err(_) => {},
        }
    }
}

/// A script is processed as its first definitions are, and from the table
/// that they make as its other definitions are.
pub proof fn lemma_definitions_in_turn(
    children: Seq<Node>,
    from: nat,
    table: Map<Seq<char>, Function>,
    input: Seq<char>,
    upto: nat,
)
    requires
        names_between(children, from, upto),
    ensures
        define_from(children, from, table, input) == match define_from(
            children.take(upto as int),
            from,
            table,
            input,
        ) {
            Ok(defined) => define_from(children, upto, defined, input),
            Err(failure) => Err(failure),
        },
    decreases children.len() - from,
{
    if from < upto {
        let name = children[from as int].text;
        let body = children[from as int + 1];
        if !table.contains_key(name) && body.rule == Rule::recursive_function {
            match build(body, table) {
                Ok(function) => {
                    lemma_definitions_in_turn(
                        children,
                        from + 2,
                        table.insert(name, function),
                        input,
                        upto,
                    );
                },
                Err(_) => {},
            }
        }
    }
}

/// A script that defines a name a second time fails there with
/// `IdentifierAlreadyExists`, whatever follows: `first` and `second` are
/// where two definitions of one name begin, and the definitions before the
/// second are processed without failure.
pub proof fn lemma_redefinition_fails(
    children: Seq<Node>,
    input: Seq<char>,
    first: nat,
    second: nat,
)
    requires
        first < second < children.len(),
        first % 2 == 0,
        names_between(children, 0, second),
        children[second as int].rule == Rule::identifier,
        children[first as int].text == children[second as int].text,
        define_from(children.take(second as int), 0, Map::empty(), input) is Ok,
    ensures
        define_from(children, 0, Map::empty(), input) == Err::<Map<Seq<char>, Function>, Failure>(
            Failure::IdentifierAlreadyExists(children[second as int].text),
        ),
{
    let before = children.take(second as int);
    lemma_definitions_recorded(before, 0, Map::empty(), input, first);
    lemma_definitions_in_turn(children, 0, Map::empty(), input, second);
}

/// A script adds functions put together by the rules to a table of such
/// functions.
pub proof fn lemma_definitions_valid(
    children: Seq<Node>,
    from: nat,
    table: Map<Seq<char>, Function>,
    input: Seq<char>,
)
    requires
        all_valid(table),
    ensures
        define_from(children, from, table, input) matches Ok(defined) ==> all_valid(defined),
    decreases children.len() - from,
{
    if from + 1 < children.len() {
        let name = children[from as int].text;
        let body = children[from as int + 1];
        lemma_build_valid(body, table);
        match build(body, table) {
            Ok(function) => {
                lemma_definitions_valid(children, from + 2, table.insert(name, function), input);
            },
            Err(_) => {},
        }
    }
}

/// Every function that a script defines is put together by the rules.
pub proof fn lemma_script_valid(input: Seq<char>)
    ensures
        script(input) matches Ok(defined) ==> all_valid(defined),
{
    match parse_at_start(Rule::functions, input) {
        Some(nodes) => {
            if nodes.len() > 0 {
                lemma_definitions_valid(nodes[0].children, 0, Map::empty(), input);
            }
        },
        None => {},
    }
}

/// A script that defines a name a second time fails with
/// `IdentifierAlreadyExists`, whatever follows: the names at `first` and
/// `second` among the names and functions of the script are the same, and
/// the definitions before the second are processed without failure.
pub proof fn lemma_script_redefinition(input: Seq<char>, first: nat, second: nat)
    requires
        functions_at(input) is Some,
        first < second < functions_at(input)->0.children.len() - 1,
        first % 2 == 0,
        second % 2 == 0,
        functions_at(input)->0.children[first as int].text == functions_at(
            input,
        )->0.children[second as int].text,
        define_from(functions_at(input)->0.children.take(second as int), 0, Map::empty(), input) is Ok,
    ensures
        script(input) == Err::<Map<Seq<char>, Function>, Failure>(
            Failure::IdentifierAlreadyExists(functions_at(input)->0.children[second as int].text),
        ),
{
    let children = functions_at(input)->0.children;
    lemma_script_shape(input);
    lemma_redefinition_fails(children, input, first, second);
}

/// Definitions in the shape that the grammar gives them fail only by the
/// rules of functions or by defining a name twice.
proof fn lemma_definitions_failures(
    children: Seq<Node>,
    from: nat,
    table: Map<Seq<char>, Function>,
    input: Seq<char>,
)
    requires
        is_script_shape(children),
        from % 2 == 0,
    ensures
        define_from(children, from, table, input) matches Err(failure) ==> by_the_rules(failure)
            || failure is IdentifierAlreadyExists,
    decreases children.len() - from,
{
    if from < children.len() - 1 {
        let name = children[from as int];
        let body = children[from as int + 1];
        lemma_function_node_failures(body, table);
        match build(body, table) {
            Ok(function) => {
                lemma_definitions_failures(
                    children,
                    from + 2,
                    table.insert(name.text, function),
                    input,
                );
            },
            Err(_) => {},
        }
    }
}

/// A script fails with `UndefinedRule` where its text is no script by the
/// grammar, and there only. A text that is a script fails only by the
/// rules of functions or by defining a name twice.
pub proof fn lemma_script_failures(input: Seq<char>)
    ensures
        parse_at_start(Rule::functions, input) is None <==> script(input) == Err::<
            Map<Seq<char>, Function>,
            Failure,
        >(Failure::UndefinedRule(input)),
        script(input) matches Err(failure) ==> failure == Failure::UndefinedRule(input)
            || by_the_rules(failure) || failure is IdentifierAlreadyExists,
{
    lemma_script_shape(input);
    match functions_at(input) {
        Some(node) => {
            lemma_definitions_failures(node.children, 0, Map::empty(), input);
        },
        None => {},
    }
}

/// The model of the outcome of a script.
pub open spec fn table_outcome(result: Result<NameTable, RecurFunctionParseError>) -> Result<
    Map<Seq<char>, Function>,
    Failure,
> {
    match result {
        Ok(table) => Ok(table@),
        Err(error) => Err(error@),
    }
}

/// Builds the table of the definitions `pairs`, the nodes inside the node
/// of a script, where `input` is the text of the script.
pub fn define_functions(pairs: &Vec<Pair>, input: &str) -> (result: Result<
    NameTable,
    RecurFunctionParseError,
>)
    ensures
        table_outcome(result) == define_from(models(pairs@), 0, Map::empty(), input@),
{
    let mut identifier_functions = NameTable::new();
    let mut i: usize = 0;
    while i < pairs.len()
        invariant
            define_from(models(pairs@), 0, Map::empty(), input@) == define_from(
                models(pairs@),
                i as nat,
                identifier_functions@,
                input@,
            ),
        decreases pairs.len() - i,
    {
        let name = &pairs[i];
        if name.as_rule() == Rule::EOI {
            return Ok(identifier_functions);
        }
        if name.as_rule() != Rule::identifier {
            return Err(RecurFunctionParseError::IdentifierExpected(name.as_str().to_owned()));
        }
        let identifier = name.as_str().to_owned();
        if identifier_functions.contains_key(name.as_str()) {
            return Err(RecurFunctionParseError::IdentifierAlreadyExists(identifier));
        }
        if i + 1 >= pairs.len() {
            return Err(RecurFunctionParseError::FunctionExpected(input.to_owned()));
        }
        let body = &pairs[i + 1];
        if body.as_rule() != Rule::recursive_function {
            return Err(RecurFunctionParseError::FunctionExpected(body.as_str().to_owned()));
        }
        let recur_function = match build_function(body, &identifier_functions) {
            Ok(function) => function,
            Err(error) => {
                return Err(error);
            },
        };
        identifier_functions.define(identifier, recur_function);
        i += 2;
    }
    Ok(identifier_functions)
}

/// Parses recursive functions input into a table where key is identifier and value is its recursive function.
///
/// # Arguments
///
/// * `input` - string which includes recursive functions.
///
/// # Returns
///
/// The table where key is identifier and value is its recursive function or RecurFunctionParseError wraped into Result.
pub fn parse_recur_functions(input: &str) -> (result: Result<NameTable, RecurFunctionParseError>)
    ensures
        table_outcome(result) == script(input@),
        result matches Ok(table) ==> all_valid(table@),
        result matches Err(error) ==> error@ == Failure::UndefinedRule(input@) || by_the_rules(
            error@,
        ) || error@ is IdentifierAlreadyExists,
{
    proof {
        lemma_script_valid(input@);
        lemma_script_failures(input@);
    }
    match RecurFunctionGrammar::parse(Rule::functions, input) {
        Ok(pairs) => {
            if pairs.len() > 0 {
                let inner = pairs[0].inner();
                define_functions(inner, input)
            } else {
                Err(RecurFunctionParseError::UndefinedRule(input.to_owned()))
            }
        },
        Err(_) => Err(RecurFunctionParseError::UndefinedRule(input.to_owned())),
    }
}

} // verus!
