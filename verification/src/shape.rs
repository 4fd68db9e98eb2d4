//! What the grammar yields: where its nodes lie in the text, and what is
//! inside them.

use crate::grammar::{
    arguments_at, between, components_at, composition_at, definition_at, definitions_at,
    end_of_input, function_at, functions_at, has_char, identifier_at, in_class, integer_at,
    is_digit, is_letter, minimization_at, parse_at_start, primitive_at, projection_at,
    query_at, remaining, run, skip, successor_at, zero_at, CharClass,
};
use crate::number::is_decimal;
use crate::syntax::{Node, Rule};
use vstd::prelude::*;

verus! {

/// Tells whether `node` covers `s` from `pos` on.
pub open spec fn placed(s: Seq<char>, pos: nat, node: Node) -> bool {
    node.start == pos && node.end == pos + node.text.len() && node.end <= s.len()
}

/// A run ends within the text.
pub proof fn lemma_run_within(s: Seq<char>, pos: nat, class: CharClass)
    requires
        pos <= s.len(),
    ensures
        pos + run(s, pos, class) <= s.len(),
    decreases remaining(s, pos),
{
    if pos < s.len() && in_class(class, s[pos as int]) {
        lemma_run_within(s, pos + 1, class);
    }
}

/// Where every character from `pos` on is of `class`, the run from `pos`
/// reaches the end of the text.
pub proof fn lemma_run_to_end(s: Seq<char>, pos: nat, class: CharClass)
    requires
        pos <= s.len(),
        forall|i: int| pos <= i < s.len() ==> in_class(class, #[trigger] s[i]),
    ensures
        pos + run(s, pos, class) == s.len(),
    decreases remaining(s, pos),
{
    if pos < s.len() {
        lemma_run_to_end(s, pos + 1, class);
    }
}

/// The components of a composition end after the position that they are
/// looked for at, and within the text.
proof fn lemma_components_end(s: Seq<char>, pos: nat)
    ensures
        components_at(s, pos) matches Some((_, end)) ==> pos < end <= s.len(),
    decreases remaining(s, pos),
{
    if has_char(s, pos, ',') {
        let next_pos = skip(s, pos + 1);
        match function_at(s, next_pos) {
            Some(next) => {
                lemma_components_end(s, skip(s, next_pos + next.text.len()));
            },
            None => {},
        }
    }
}

/// The node of each kind of function covers the text from the position
/// that it was looked for at.
proof fn lemma_kinds_placed(s: Seq<char>, pos: nat)
    ensures
        zero_at(s, pos) matches Some(node) ==> placed(s, pos, node),
        successor_at(s, pos) matches Some(node) ==> placed(s, pos, node),
        projection_at(s, pos) matches Some(node) ==> placed(s, pos, node),
        composition_at(s, pos) matches Some(node) ==> placed(s, pos, node),
        primitive_at(s, pos) matches Some(node) ==> placed(s, pos, node),
        minimization_at(s, pos) matches Some(node) ==> placed(s, pos, node),
        identifier_at(s, pos) matches Some(node) ==> placed(s, pos, node),
{
    if pos < s.len() {
        lemma_run_within(s, pos + 1, CharClass::Word);
    }
    if pos + 2 <= s.len() {
        match integer_at(s, pos + 2) {
            Some(arity) => {
                if arity.end + 1 <= s.len() {
                    lemma_run_within(s, arity.end + 1, CharClass::Digit);
                }
            },
            None => {},
        }
    }
    if has_char(s, pos, '(') {
        let base_pos = skip(s, pos + 1);
        match function_at(s, base_pos) {
            Some(base) => {
                let colon = skip(s, base_pos + base.text.len());
                if has_char(s, colon, ':') {
                    let first_pos = skip(s, colon + 1);
                    match function_at(s, first_pos) {
                        Some(first) => {
                            lemma_components_end(s, skip(s, first_pos + first.text.len()));
                        },
                        None => {},
                    }
                }
            },
            None => {},
        }
    }
}

/// The node of a function covers the text from the position that it was
/// looked for at: it starts there, ends within the text, and its text is
/// the text between its start and its end. So the position after its text
/// is its end.
pub proof fn lemma_function_placed(s: Seq<char>, pos: nat)
    ensures
        function_at(s, pos) matches Some(node) ==> placed(s, pos, node) && node.text == s.subrange(
            pos as int,
            node.end as int,
        ),
{
    lemma_kinds_placed(s, pos);
}

/// A name: a letter, then letters, digits and underscores.
pub open spec fn is_name(text: Seq<char>) -> bool {
    &&& text.len() > 0
    &&& is_letter(text[0])
    &&& forall|i: int| 0 <= i < text.len() ==> in_class(CharClass::Word, #[trigger] text[i])
}

/// Tells whether `node` is an integer as the grammar yields them: its text
/// is one decimal digit or more.
pub open spec fn is_integer_node(node: Node) -> bool {
    node.rule == Rule::integer && is_decimal(node.text)
}

/// Tells whether `node` is a name as the grammar yields them.
pub open spec fn is_name_node(node: Node) -> bool {
    node.rule == Rule::identifier && is_name(node.text)
}

/// Tells whether `node` is a function as the grammar yields them: a node
/// of `recursive_function` around the node of one of the kinds.
pub open spec fn is_function_node(node: Node) -> bool
    decreases node,
{
    node.rule == Rule::recursive_function && node.children.len() == 1 && is_kind_node(
        node.children[0],
    )
}

/// Tells whether `node` is one of the kinds of function as the grammar
/// yields them, with the parts of that kind inside it.
pub open spec fn is_kind_node(node: Node) -> bool
    decreases node,
{
    match node.rule {
        Rule::zero => true,
        Rule::successor => true,
        Rule::identifier => is_name(node.text),
        Rule::projection => {
            &&& node.children.len() == 2
            &&& is_integer_node(node.children[0])
            &&& is_integer_node(node.children[1])
        },
        Rule::composition => {
            &&& node.children.len() >= 2
            &&& forall|j: int|
                0 <= j < node.children.len() ==> is_function_node(#[trigger] node.children[j])
        },
        Rule::primitive => {
            &&& node.children.len() == 2
            &&& is_function_node(node.children[0])
            &&& is_function_node(node.children[1])
        },
        Rule::minimization => {
            &&& node.children.len() == 2
            &&& is_function_node(node.children[0])
            &&& is_integer_node(node.children[1])
        },
        _ => false,
    }
}

/// Tells whether `children` are what the grammar puts inside the node of a
/// script: names and functions in turn, one pair at least, and last the end
/// of the input.
pub open spec fn is_script_shape(children: Seq<Node>) -> bool {
    &&& children.len() >= 3
    &&& children.len() % 2 == 1
    &&& children.last().rule == Rule::EOI
    &&& forall|k: int|
        0 <= k < children.len() - 1 ==> if k % 2 == 0 {
            is_name_node(#[trigger] children[k])
        } else {
            is_function_node(children[k])
        }
}

/// Tells whether `children` are what the grammar puts inside the node of a
/// query: a name, integers, and last the end of the input.
pub open spec fn is_query_shape(children: Seq<Node>) -> bool {
    &&& children.len() >= 2
    &&& is_name_node(children[0])
    &&& children.last().rule == Rule::EOI
    &&& forall|k: int| 1 <= k < children.len() - 1 ==> is_integer_node(#[trigger] children[k])
}

/// Every character of a run is of the class of the run.
pub proof fn lemma_run_of_class(s: Seq<char>, pos: nat, class: CharClass, i: int)
    requires
        pos <= i < pos + run(s, pos, class),
    ensures
        i < s.len(),
        in_class(class, s[i]),
    decreases remaining(s, pos),
{
    if i > pos {
        lemma_run_of_class(s, pos + 1, class, i);
    }
}

/// The text of an integer is decimal digits.
pub proof fn lemma_integer_shape(s: Seq<char>, pos: nat)
    ensures
        integer_at(s, pos) matches Some(node) ==> is_integer_node(node) && placed(s, pos, node),
{
    match integer_at(s, pos) {
        Some(node) => {
            lemma_run_within(s, pos, CharClass::Digit);
            assert forall|i: int| 0 <= i < node.text.len() implies is_digit(
                #[trigger] node.text[i],
            ) by {
                lemma_run_of_class(s, pos, CharClass::Digit, pos + i);
            }
        },
        None => {},
    }
}

/// The text of an identifier is a name.
pub proof fn lemma_identifier_shape(s: Seq<char>, pos: nat)
    ensures
        identifier_at(s, pos) matches Some(node) ==> is_name_node(node) && placed(s, pos, node),
{
    match identifier_at(s, pos) {
        Some(node) => {
            lemma_run_within(s, pos + 1, CharClass::Word);
            assert forall|i: int| 0 <= i < node.text.len() implies in_class(
                CharClass::Word,
                #[trigger] node.text[i],
            ) by {
                if i > 0 {
                    lemma_run_of_class(s, pos + 1, CharClass::Word, pos + i);
                }
            }
        },
        None => {},
    }
}

/// What the grammar yields for a function is a function node.
pub proof fn lemma_function_shape(s: Seq<char>, pos: nat)
    ensures
        function_at(s, pos) matches Some(node) ==> is_function_node(node),
    decreases remaining(s, pos), 1nat,
{
    lemma_identifier_shape(s, pos);
    lemma_projection_shape(s, pos);
    lemma_composition_shape(s, pos);
    lemma_primitive_shape(s, pos);
    lemma_minimization_shape(s, pos);
}

/// What the grammar yields for a projection holds two integers.
proof fn lemma_projection_shape(s: Seq<char>, pos: nat)
    ensures
        projection_at(s, pos) matches Some(node) ==> is_kind_node(node),
{
    lemma_integer_shape(s, pos + 2);
    match integer_at(s, pos + 2) {
        Some(arity) => {
            lemma_integer_shape(s, arity.end + 1);
        },
        None => {},
    }
}

/// What the grammar yields for a composition holds functions.
proof fn lemma_composition_shape(s: Seq<char>, pos: nat)
    ensures
        composition_at(s, pos) matches Some(node) ==> is_kind_node(node),
    decreases remaining(s, pos), 0nat,
{
    if has_char(s, pos, '(') {
        let base_pos = skip(s, pos + 1);
        lemma_function_shape(s, base_pos);
        match function_at(s, base_pos) {
            Some(base) => {
                let colon = skip(s, base_pos + base.text.len());
                if has_char(s, colon, ':') {
                    let first_pos = skip(s, colon + 1);
                    lemma_function_shape(s, first_pos);
                    match function_at(s, first_pos) {
                        Some(first) => {
                            lemma_components_shape(s, skip(s, first_pos + first.text.len()));
                        },
                        None => {},
                    }
                }
            },
            None => {},
        }
    }
}

/// What the grammar yields for a primitive recursion holds two functions.
proof fn lemma_primitive_shape(s: Seq<char>, pos: nat)
    ensures
        primitive_at(s, pos) matches Some(node) ==> is_kind_node(node),
    decreases remaining(s, pos), 0nat,
{
    if has_char(s, pos, '[') {
        let base_pos = skip(s, pos + 1);
        lemma_function_shape(s, base_pos);
        match function_at(s, base_pos) {
            Some(base) => {
                let comma = skip(s, base_pos + base.text.len());
                if has_char(s, comma, ',') {
                    lemma_function_shape(s, skip(s, comma + 1));
                }
            },
            None => {},
        }
    }
}

/// What the grammar yields for a minimization holds a function and an
/// integer.
proof fn lemma_minimization_shape(s: Seq<char>, pos: nat)
    ensures
        minimization_at(s, pos) matches Some(node) ==> is_kind_node(node),
    decreases remaining(s, pos), 0nat,
{
    if has_char(s, pos, '{') {
        let base_pos = skip(s, pos + 1);
        lemma_function_shape(s, base_pos);
        match function_at(s, base_pos) {
            Some(base) => {
                let comma = skip(s, base_pos + base.text.len());
                if has_char(s, comma, ',') {
                    lemma_integer_shape(s, skip(s, comma + 1));
                }
            },
            None => {},
        }
    }
}

/// The further components of a composition are function nodes.
proof fn lemma_components_shape(s: Seq<char>, pos: nat)
    ensures
        components_at(s, pos) matches Some((others, _)) ==> forall|j: int|
            0 <= j < others.len() ==> is_function_node(#[trigger] others[j]),
    decreases remaining(s, pos), 0nat,
{
    if has_char(s, pos, ',') {
        let next_pos = skip(s, pos + 1);
        lemma_function_shape(s, next_pos);
        match function_at(s, next_pos) {
            Some(next) => {
                lemma_components_shape(s, skip(s, next_pos + next.text.len()));
            },
            None => {},
        }
    }
}

/// What the grammar puts inside the node of a script has the shape of a
/// script.
pub proof fn lemma_script_shape(s: Seq<char>)
    ensures
        functions_at(s) matches Some(node) ==> is_script_shape(node.children),
{
    lemma_definitions_shape(s, skip(s, 0));
}

/// The definitions of a script are names and functions in turn, and last
/// the end of the input.
proof fn lemma_definitions_shape(s: Seq<char>, pos: nat)
    ensures
        definitions_at(s, pos) matches Some(children) ==> is_script_shape(children),
    decreases remaining(s, pos),
{
    match definition_at(s, pos) {
        Some((name, body, next)) => {
            lemma_identifier_shape(s, pos);
            lemma_function_shape(s, skip(s, skip(s, name.end) + 1));
            if next < s.len() {
                lemma_definitions_shape(s, next);
                match definitions_at(s, next) {
                    Some(others) => {
                        let children = seq![name, body] + others;
                        assert forall|k: int| 0 <= k < children.len() - 1 implies if k % 2 == 0 {
                            is_name_node(#[trigger] children[k])
                        } else {
                            is_function_node(children[k])
                        } by {
                            if k >= 2 {
                                assert(children[k] == others[k - 2]);
                            }
                        }
                        assert(children.last() == others.last());
                    },
                    None => {},
                }
            }
        },
        None => {},
    }
}

/// What the grammar puts inside the node of a query has the shape of a
/// query.
pub proof fn lemma_query_shape(s: Seq<char>)
    ensures
        query_at(s) matches Some(node) ==> is_query_shape(node.children),
{
    let name_pos = skip(s, 0);
    lemma_identifier_shape(s, name_pos);
    match identifier_at(s, name_pos) {
        Some(name) => {
            lemma_arguments_shape(s, skip(s, name.end));
            match arguments_at(s, skip(s, name.end)) {
                Some(others) => {
                    let children = seq![name] + others;
                    assert forall|k: int| 1 <= k < children.len() - 1 implies is_integer_node(
                        #[trigger] children[k],
                    ) by {
                        assert(children[k] == others[k - 1]);
                    }
                    assert(children.last() == others.last());
                },
                None => {},
            }
        },
        None => {},
    }
}

/// The arguments of a query are integers, and last the end of the input.
proof fn lemma_arguments_shape(s: Seq<char>, pos: nat)
    ensures
        arguments_at(s, pos) matches Some(children) ==> {
            &&& children.len() >= 1
            &&& children.last().rule == Rule::EOI
            &&& forall|k: int| 0 <= k < children.len() - 1 ==> is_integer_node(#[trigger] children[k])
        },
    decreases remaining(s, pos),
{
    if pos < s.len() {
        lemma_integer_shape(s, pos);
        match integer_at(s, pos) {
            Some(argument) => {
                lemma_arguments_shape(s, skip(s, argument.end));
                match arguments_at(s, skip(s, argument.end)) {
                    Some(others) => {
                        let children = seq![argument] + others;
                        assert forall|k: int| 0 <= k < children.len() - 1 implies is_integer_node(
                            #[trigger] children[k],
                        ) by {
                            if k >= 1 {
                                assert(children[k] == others[k - 1]);
                            }
                        }
                        assert(children.last() == others.last());
                    },
                    None => {},
                }
            },
            None => {},
        }
    }
}

/// Tells whether the characters of `s` from `from` up to `to` are ASCII.
pub open spec fn is_ascii_between(s: Seq<char>, from: nat, to: nat) -> bool {
    forall|i: int| from <= i < to && i < s.len() ==> (#[trigger] s[i]) <= '\u{7f}'
}

/// The characters of a run are ASCII.
proof fn lemma_run_ascii(s: Seq<char>, pos: nat, class: CharClass)
    ensures
        is_ascii_between(s, pos, pos + run(s, pos, class)),
{
    assert forall|i: int| pos <= i < pos + run(s, pos, class) && i < s.len() implies (
    #[trigger] s[i]) <= '\u{7f}' by {
        lemma_run_of_class(s, pos, class, i);
    }
}

/// The text of a projection is ASCII.
proof fn lemma_projection_ascii(s: Seq<char>, pos: nat)
    ensures
        projection_at(s, pos) matches Some(node) ==> is_ascii_between(s, pos, node.end),
{
    lemma_run_ascii(s, pos + 2, CharClass::Digit);
    match integer_at(s, pos + 2) {
        Some(arity) => {
            lemma_run_ascii(s, arity.end + 1, CharClass::Digit);
        },
        None => {},
    }
}

/// The text of a function is ASCII.
proof fn lemma_function_ascii(s: Seq<char>, pos: nat)
    ensures
        function_at(s, pos) matches Some(node) ==> is_ascii_between(s, pos, node.end),
    decreases remaining(s, pos), 1nat,
{
    lemma_kinds_placed(s, pos);
    lemma_run_ascii(s, pos + 1, CharClass::Word);
    lemma_projection_ascii(s, pos);
    lemma_composition_ascii(s, pos);
    lemma_primitive_ascii(s, pos);
    lemma_minimization_ascii(s, pos);
}

/// The text of a composition is ASCII.
proof fn lemma_composition_ascii(s: Seq<char>, pos: nat)
    ensures
        composition_at(s, pos) matches Some(node) ==> is_ascii_between(s, pos, node.end),
    decreases remaining(s, pos), 0nat,
{
    if has_char(s, pos, '(') {
        lemma_run_ascii(s, pos + 1, CharClass::Blank);
        let base_pos = skip(s, pos + 1);
        lemma_function_ascii(s, base_pos);
        match function_at(s, base_pos) {
            Some(base) => {
                lemma_run_ascii(s, base_pos + base.text.len(), CharClass::Blank);
                let colon = skip(s, base_pos + base.text.len());
                if has_char(s, colon, ':') {
                    lemma_run_ascii(s, colon + 1, CharClass::Blank);
                    let first_pos = skip(s, colon + 1);
                    lemma_function_ascii(s, first_pos);
                    match function_at(s, first_pos) {
                        Some(first) => {
                            lemma_run_ascii(s, first_pos + first.text.len(), CharClass::Blank);
                            lemma_components_ascii(s, skip(s, first_pos + first.text.len()));
                        },
                        None => {},
                    }
                }
            },
            None => {},
        }
    }
}

/// The text of a primitive recursion is ASCII.
proof fn lemma_primitive_ascii(s: Seq<char>, pos: nat)
    ensures
        primitive_at(s, pos) matches Some(node) ==> is_ascii_between(s, pos, node.end),
    decreases remaining(s, pos), 0nat,
{
    if has_char(s, pos, '[') {
        lemma_run_ascii(s, pos + 1, CharClass::Blank);
        let base_pos = skip(s, pos + 1);
        lemma_function_ascii(s, base_pos);
        match function_at(s, base_pos) {
            Some(base) => {
                lemma_run_ascii(s, base_pos + base.text.len(), CharClass::Blank);
                let comma = skip(s, base_pos + base.text.len());
                if has_char(s, comma, ',') {
                    lemma_run_ascii(s, comma + 1, CharClass::Blank);
                    let step_pos = skip(s, comma + 1);
                    lemma_function_ascii(s, step_pos);
                    match function_at(s, step_pos) {
                        Some(step) => {
                            lemma_run_ascii(s, step_pos + step.text.len(), CharClass::Blank);
                        },
                        None => {},
                    }
                }
            },
            None => {},
        }
    }
}

/// The text of a minimization is ASCII.
proof fn lemma_minimization_ascii(s: Seq<char>, pos: nat)
    ensures
        minimization_at(s, pos) matches Some(node) ==> is_ascii_between(s, pos, node.end),
    decreases remaining(s, pos), 0nat,
{
    if has_char(s, pos, '{') {
        lemma_run_ascii(s, pos + 1, CharClass::Blank);
        let base_pos = skip(s, pos + 1);
        lemma_function_ascii(s, base_pos);
        lemma_function_placed(s, base_pos);
        match function_at(s, base_pos) {
            Some(base) => {
                lemma_run_ascii(s, base_pos + base.text.len(), CharClass::Blank);
                let comma = skip(s, base_pos + base.text.len());
                if has_char(s, comma, ',') {
                    lemma_run_ascii(s, comma + 1, CharClass::Blank);
                    let bound_pos = skip(s, comma + 1);
                    lemma_run_ascii(s, bound_pos, CharClass::Digit);
                    match integer_at(s, bound_pos) {
                        Some(bound) => {
                            lemma_run_ascii(s, bound.end, CharClass::Blank);
                        },
                        None => {},
                    }
                }
            },
            None => {},
        }
    }
}

/// The text of the further components of a composition is ASCII.
proof fn lemma_components_ascii(s: Seq<char>, pos: nat)
    ensures
        components_at(s, pos) matches Some((_, end)) ==> is_ascii_between(s, pos, end),
    decreases remaining(s, pos), 0nat,
{
    if has_char(s, pos, ',') {
        lemma_run_ascii(s, pos + 1, CharClass::Blank);
        let next_pos = skip(s, pos + 1);
        lemma_function_ascii(s, next_pos);
        lemma_function_placed(s, next_pos);
        match function_at(s, next_pos) {
            Some(next) => {
                lemma_run_ascii(s, next_pos + next.text.len(), CharClass::Blank);
                lemma_components_ascii(s, skip(s, next_pos + next.text.len()));
            },
            None => {},
        }
    }
}

/// The text of the definitions of a script is ASCII.
proof fn lemma_definitions_ascii(s: Seq<char>, pos: nat)
    ensures
        definitions_at(s, pos) is Some ==> is_ascii_between(s, pos, s.len()),
    decreases remaining(s, pos),
{
    match definition_at(s, pos) {
        Some((name, body, next)) => {
            lemma_run_ascii(s, pos + 1, CharClass::Word);
            lemma_run_ascii(s, name.end, CharClass::Blank);
            let equals = skip(s, name.end);
            lemma_run_ascii(s, equals + 1, CharClass::Blank);
            let body_pos = skip(s, equals + 1);
            lemma_function_ascii(s, body_pos);
            lemma_function_placed(s, body_pos);
            lemma_run_ascii(s, body_pos + body.text.len(), CharClass::Blank);
            let semicolon = skip(s, body_pos + body.text.len());
            lemma_run_ascii(s, semicolon + 1, CharClass::Blank);
            if next < s.len() {
                lemma_definitions_ascii(s, next);
            }
        },
        None => {},
    }
}

/// The text of the arguments of a query is ASCII.
proof fn lemma_arguments_ascii(s: Seq<char>, pos: nat)
    ensures
        arguments_at(s, pos) is Some ==> is_ascii_between(s, pos, s.len()),
    decreases remaining(s, pos),
{
    if pos < s.len() {
        lemma_run_ascii(s, pos, CharClass::Digit);
        match integer_at(s, pos) {
            Some(argument) => {
                lemma_run_ascii(s, argument.end, CharClass::Blank);
                lemma_arguments_ascii(s, skip(s, argument.end));
            },
            None => {},
        }
    }
}

/// The text of an integer, of an identifier, of a zero and of a successor
/// is ASCII.
proof fn lemma_tokens_ascii(s: Seq<char>, pos: nat)
    ensures
        integer_at(s, pos) matches Some(node) ==> is_ascii_between(s, pos, node.end),
        identifier_at(s, pos) matches Some(node) ==> is_ascii_between(s, pos, node.end),
        zero_at(s, pos) matches Some(node) ==> is_ascii_between(s, pos, node.end),
        successor_at(s, pos) matches Some(node) ==> is_ascii_between(s, pos, node.end),
{
    lemma_run_ascii(s, pos, CharClass::Digit);
    lemma_run_ascii(s, pos + 1, CharClass::Word);
}

/// The text of a script is ASCII.
proof fn lemma_script_ascii(s: Seq<char>)
    ensures
        functions_at(s) is Some ==> is_ascii_between(s, 0, s.len()),
{
    lemma_run_ascii(s, 0, CharClass::Blank);
    lemma_definitions_ascii(s, skip(s, 0));
}

/// The text of a query is ASCII.
proof fn lemma_query_ascii(s: Seq<char>)
    ensures
        query_at(s) is Some ==> is_ascii_between(s, 0, s.len()),
{
    lemma_run_ascii(s, 0, CharClass::Blank);
    let name_pos = skip(s, 0);
    lemma_tokens_ascii(s, name_pos);
    match identifier_at(s, name_pos) {
        Some(name) => {
            lemma_run_ascii(s, name.end, CharClass::Blank);
            lemma_arguments_ascii(s, skip(s, name.end));
        },
        None => {},
    }
}

/// The text that a rule matches at the start of a text is ASCII up to the
/// end of the node that the rule yields. So the positions of the nodes,
/// which count characters, count bytes as well.
pub proof fn lemma_matched_text_ascii(rule: Rule, s: Seq<char>)
    ensures
        parse_at_start(rule, s) matches Some(nodes) ==> forall|k: int|
            0 <= k < nodes.len() ==> is_ascii_between(s, 0, (#[trigger] nodes[k]).end),
{
    lemma_tokens_ascii(s, 0);
    lemma_projection_ascii(s, 0);
    lemma_composition_ascii(s, 0);
    lemma_primitive_ascii(s, 0);
    lemma_minimization_ascii(s, 0);
    lemma_function_ascii(s, 0);
    lemma_script_ascii(s);
    lemma_query_ascii(s);
}

/// A name alone is a query without arguments.
pub proof fn lemma_name_is_query(name: Seq<char>)
    requires
        is_name(name),
    ensures
        query_at(name) == Some(
            between(
                Rule::query,
                name,
                0,
                name.len(),
                seq![between(Rule::identifier, name, 0, name.len(), seq![]), end_of_input(name)],
            ),
        ),
{
    lemma_run_to_end(name, 1, CharClass::Word);
    assert(seq![between(Rule::identifier, name, 0, name.len(), seq![])] + seq![
        end_of_input(name),
    ] =~= seq![between(Rule::identifier, name, 0, name.len(), seq![]), end_of_input(name)]);
}

} // verus!
