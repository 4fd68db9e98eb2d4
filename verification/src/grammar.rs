//! The grammar of scripts and queries.
//!
//! A script is a sequence of definitions `name = function ;`. A function is
//! `$z`, `$s`, `$p<N>.<I>`, `(base:f1,f2,...)`, `[base,step]`, `{base,bound}` or
//! the name of an earlier definition. A query is a name followed by its
//! arguments. Blanks, tabs and line ends may stand between the tokens of a
//! composition, a primitive recursion, a minimization, a script and a query,
//! and nowhere else.
//!
//! Every rule is a function from a text and a position to the node that the
//! rule yields there, if it matches. Alternatives are tried in order and
//! repetitions are greedy.

use crate::syntax::{Node, Rule};
use vstd::prelude::*;

verus! {

/// The classes of characters that runs are made of.
#[derive(Clone, Copy, Debug, PartialEq, Eq, Structural)]
pub enum CharClass {
    /// Blank, tab, line feed and carriage return.
    Blank,
    /// The decimal digits.
    Digit,
    /// Letters, digits and the underscore.
    Word,
}

/// Tells whether `c` is a decimal digit.
pub open spec fn is_digit(c: char) -> bool {
    '0' <= c <= '9'
}

/// Tells whether `c` is a letter of the Latin alphabet.
pub open spec fn is_letter(c: char) -> bool {
    'a' <= c <= 'z' || 'A' <= c <= 'Z'
}

/// Tells whether `c` belongs to `class`.
pub open spec fn in_class(class: CharClass, c: char) -> bool {
    match class {
        CharClass::Blank => c == ' ' || c == '\t' || c == '\n' || c == '\r',
        CharClass::Digit => is_digit(c),
        CharClass::Word => is_letter(c) || is_digit(c) || c == '_',
    }
}

/// How many characters of `s` are left at `pos`.
pub open spec fn remaining(s: Seq<char>, pos: nat) -> nat {
    if pos <= s.len() {
        (s.len() - pos) as nat
    } else {
        0
    }
}

/// The length of the longest run of characters of `class` that starts at
/// `pos`.
pub open spec fn run(s: Seq<char>, pos: nat, class: CharClass) -> nat
    decreases remaining(s, pos),
{
    if pos < s.len() && in_class(class, s[pos as int]) {
        1 + run(s, pos + 1, class)
    } else {
        0
    }
}

/// The first position from `pos` on that holds no blank.
pub open spec fn skip(s: Seq<char>, pos: nat) -> nat {
    pos + run(s, pos, CharClass::Blank)
}

/// Tells whether `s` holds `c` at `pos`.
pub open spec fn has_char(s: Seq<char>, pos: nat, c: char) -> bool {
    pos < s.len() && s[pos as int] == c
}

/// The node of `rule` that covers `s` from `start` to `end`.
pub open spec fn between(rule: Rule, s: Seq<char>, start: nat, end: nat, children: Seq<Node>) -> Node {
    Node { rule, text: s.subrange(start as int, end as int), start, end, children }
}

/// The node for the end of `s`.
pub open spec fn end_of_input(s: Seq<char>) -> Node {
    between(Rule::EOI, s, s.len(), s.len(), seq![])
}

/// `integer`: one digit or more.
pub open spec fn integer_at(s: Seq<char>, pos: nat) -> Option<Node> {
    let digits = run(s, pos, CharClass::Digit);
    if digits > 0 {
        Some(between(Rule::integer, s, pos, pos + digits, seq![]))
    } else {
        None
    }
}

/// `identifier`: a letter, then letters, digits and underscores.
pub open spec fn identifier_at(s: Seq<char>, pos: nat) -> Option<Node> {
    if pos < s.len() && is_letter(s[pos as int]) {
        Some(between(Rule::identifier, s, pos, pos + 1 + run(s, pos + 1, CharClass::Word), seq![]))
    } else {
        None
    }
}

/// `zero`: the two characters `$z`.
pub open spec fn zero_at(s: Seq<char>, pos: nat) -> Option<Node> {
    if has_char(s, pos, '$') && has_char(s, pos + 1, 'z') {
        Some(between(Rule::zero, s, pos, pos + 2, seq![]))
    } else {
        None
    }
}

/// `successor`: the two characters `$s`.
pub open spec fn successor_at(s: Seq<char>, pos: nat) -> Option<Node> {
    if has_char(s, pos, '$') && has_char(s, pos + 1, 's') {
        Some(between(Rule::successor, s, pos, pos + 2, seq![]))
    } else {
        None
    }
}

/// `projection`: `$p`, an integer, a dot and an integer, with nothing
/// between them. The two integers are the children.
pub open spec fn projection_at(s: Seq<char>, pos: nat) -> Option<Node> {
    if has_char(s, pos, '$') && has_char(s, pos + 1, 'p') {
        match integer_at(s, pos + 2) {
            Some(arity) => if has_char(s, arity.end, '.') {
                match integer_at(s, arity.end + 1) {
                    Some(index) => Some(
                        between(Rule::projection, s, pos, index.end, seq![arity, index]),
                    ),
                    None => None,
                }
            } else {
                None
            },
            None => None,
        }
    } else {
        None
    }
}

/// The first of two alternatives that matches.
pub open spec fn or_else(first: Option<Node>, second: Option<Node>) -> Option<Node> {
    if first is Some {
        first
    } else {
        second
    }
}

/// `recursive_function`: a zero, a successor, a projection, a composition, a
/// primitive recursion, a minimization or an identifier, whichever matches
/// first. The node of that rule is the one child.
pub open spec fn function_at(s: Seq<char>, pos: nat) -> Option<Node>
    decreases remaining(s, pos), 1nat,
{
    let inner = or_else(
        zero_at(s, pos),
        or_else(
            successor_at(s, pos),
            or_else(
                projection_at(s, pos),
                or_else(
                    composition_at(s, pos),
                    or_else(
                        primitive_at(s, pos),
                        or_else(minimization_at(s, pos), identifier_at(s, pos)),
                    ),
                ),
            ),
        ),
    );
    match inner {
        Some(node) => Some(
            Node {
                rule: Rule::recursive_function,
                text: node.text,
                start: pos,
                end: pos + node.text.len(),
                children: seq![node],
            },
        ),
        None => None,
    }
}

/// `composition`: `(`, the base, `:`, one component or more with `,` between
/// them, and `)`. The base and the components are the children.
pub open spec fn composition_at(s: Seq<char>, pos: nat) -> Option<Node>
    decreases remaining(s, pos), 0nat,
{
    if has_char(s, pos, '(') {
        let base_pos = skip(s, pos + 1);
        match function_at(s, base_pos) {
            Some(base) => {
                let colon = skip(s, base_pos + base.text.len());
                if has_char(s, colon, ':') {
                    let first_pos = skip(s, colon + 1);
                    match function_at(s, first_pos) {
                        Some(first) => match components_at(
                            s,
                            skip(s, first_pos + first.text.len()),
                        ) {
                            Some((others, end)) => Some(
                                between(Rule::composition, s, pos, end, seq![base, first] + others),
                            ),
                            None => None,
                        },
                        None => None,
                    }
                } else {
                    None
                }
            },
            None => None,
        }
    } else {
        None
    }
}

/// What follows a component of a composition, blanks skipped: `)`, or `,`
/// and a component and what follows that one. Gives the components found
/// and the position after the `)`.
pub open spec fn components_at(s: Seq<char>, pos: nat) -> Option<(Seq<Node>, nat)>
    decreases remaining(s, pos), 0nat,
{
    if has_char(s, pos, ')') {
        Some((seq![], pos + 1))
    } else if has_char(s, pos, ',') {
        let next_pos = skip(s, pos + 1);
        match function_at(s, next_pos) {
            Some(next) => match components_at(s, skip(s, next_pos + next.text.len())) {
                Some((others, end)) => Some((seq![next] + others, end)),
                None => None,
            },
            None => None,
        }
    } else {
        None
    }
}

/// `primitive`: `[`, the base, `,`, the step and `]`. The base and the step
/// are the children.
pub open spec fn primitive_at(s: Seq<char>, pos: nat) -> Option<Node>
    decreases remaining(s, pos), 0nat,
{
    if has_char(s, pos, '[') {
        let base_pos = skip(s, pos + 1);
        match function_at(s, base_pos) {
            Some(base) => {
                let comma = skip(s, base_pos + base.text.len());
                if has_char(s, comma, ',') {
                    let step_pos = skip(s, comma + 1);
                    match function_at(s, step_pos) {
                        Some(step) => {
                            let close = skip(s, step_pos + step.text.len());
                            if has_char(s, close, ']') {
                                Some(
                                    between(Rule::primitive, s, pos, close + 1, seq![base, step]),
                                )
                            } else {
                                None
                            }
                        },
                        None => None,
                    }
                } else {
                    None
                }
            },
            None => None,
        }
    } else {
        None
    }
}

/// `minimization`: `{`, the base, `,`, the bound and `}`. The base and the
/// bound, an integer, are the children.
pub open spec fn minimization_at(s: Seq<char>, pos: nat) -> Option<Node>
    decreases remaining(s, pos), 0nat,
{
    if has_char(s, pos, '{') {
        let base_pos = skip(s, pos + 1);
        match function_at(s, base_pos) {
            Some(base) => {
                let comma = skip(s, base_pos + base.text.len());
                if has_char(s, comma, ',') {
                    match integer_at(s, skip(s, comma + 1)) {
                        Some(bound) => {
                            let close = skip(s, bound.end);
                            if has_char(s, close, '}') {
                                Some(
                                    between(
                                        Rule::minimization,
                                        s,
                                        pos,
                                        close + 1,
                                        seq![base, bound],
                                    ),
                                )
                            } else {
                                None
                            }
                        },
                        None => None,
                    }
                } else {
                    None
                }
            },
            None => None,
        }
    } else {
        None
    }
}

/// One definition at `pos`: a name, `=`, a function and `;`. Gives the
/// name, the function, and the position after the `;` and the blanks that
/// follow it.
pub open spec fn definition_at(s: Seq<char>, pos: nat) -> Option<(Node, Node, nat)> {
    match identifier_at(s, pos) {
        Some(name) => {
            let equals = skip(s, name.end);
            if has_char(s, equals, '=') {
                let body_pos = skip(s, equals + 1);
                match function_at(s, body_pos) {
                    Some(body) => {
                        let semicolon = skip(s, body_pos + body.text.len());
                        if has_char(s, semicolon, ';') {
                            Some((name, body, skip(s, semicolon + 1)))
                        } else {
                            None
                        }
                    },
                    None => None,
                }
            } else {
                None
            }
        },
        None => None,
    }
}

/// The result of a search for further nodes when `found` were found before.
pub open spec fn after(found: Seq<Node>, further: Option<Seq<Node>>) -> Option<Seq<Node>> {
    match further {
        Some(others) => Some(found + others),
        None => None,
    }
}

/// The definitions of a script from `pos` on, blanks skipped: a definition,
/// then the end of the input or further definitions. Gives the names and
/// functions in turn, and last the end of the input.
pub open spec fn definitions_at(s: Seq<char>, pos: nat) -> Option<Seq<Node>>
    decreases remaining(s, pos),
{
    match definition_at(s, pos) {
        Some((name, body, next)) => if next >= s.len() {
            Some(seq![name, body, end_of_input(s)])
        } else {
            after(seq![name, body], definitions_at(s, next))
        },
        None => None,
    }
}

/// `functions`: the whole of `s` as a script of one definition or more.
pub open spec fn functions_at(s: Seq<char>) -> Option<Node> {
    match definitions_at(s, skip(s, 0)) {
        Some(children) => Some(between(Rule::functions, s, 0, s.len(), children)),
        None => None,
    }
}

/// The arguments of a query from `pos` on, blanks skipped: integers up to
/// the end of the input. Gives the integers, and last the end of the input.
pub open spec fn arguments_at(s: Seq<char>, pos: nat) -> Option<Seq<Node>>
    decreases remaining(s, pos),
{
    if pos >= s.len() {
        Some(seq![end_of_input(s)])
    } else {
        match integer_at(s, pos) {
            Some(argument) => after(seq![argument], arguments_at(s, skip(s, argument.end))),
            None => None,
        }
    }
}

/// `query`: the whole of `s` as a name and its arguments.
pub open spec fn query_at(s: Seq<char>) -> Option<Node> {
    let name_pos = skip(s, 0);
    match identifier_at(s, name_pos) {
        Some(name) => match after(seq![name], arguments_at(s, skip(s, name.end))) {
            Some(children) => Some(between(Rule::query, s, 0, s.len(), children)),
            None => None,
        },
        None => None,
    }
}

/// The list of the one node, if there is one.
pub open spec fn single(node: Option<Node>) -> Option<Seq<Node>> {
    match node {
        Some(node) => Some(seq![node]),
        None => None,
    }
}

/// What `rule` yields at the start of `s`: the node of the rule, no node
/// for a blank, or `None` where the rule does not match. Only a script and
/// a query must reach the end of `s`.
pub open spec fn parse_at_start(rule: Rule, s: Seq<char>) -> Option<Seq<Node>> {
    match rule {
        Rule::EOI => if s.len() == 0 {
            Some(seq![end_of_input(s)])
        } else {
            None
        },
        Rule::WHITESPACE => if s.len() > 0 && in_class(CharClass::Blank, s[0]) {
            Some(seq![])
        } else {
            None
        },
        Rule::integer => single(integer_at(s, 0)),
        Rule::identifier => single(identifier_at(s, 0)),
        Rule::zero => single(zero_at(s, 0)),
        Rule::successor => single(successor_at(s, 0)),
        Rule::projection => single(projection_at(s, 0)),
        Rule::composition => single(composition_at(s, 0)),
        Rule::primitive => single(primitive_at(s, 0)),
        Rule::minimization => single(minimization_at(s, 0)),
        Rule::recursive_function => single(function_at(s, 0)),
        Rule::functions => single(functions_at(s)),
        Rule::query => single(query_at(s)),
    }
}

} // verus!
