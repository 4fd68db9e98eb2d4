//! The parser: the rules of the grammar as executable functions, each
//! yielding what its rule yields.

use crate::grammar::{
    after, arguments_at, between, components_at, composition_at, definition_at, definitions_at,
    end_of_input, function_at, functions_at, has_char, identifier_at, in_class, integer_at,
    is_letter, minimization_at, parse_at_start, primitive_at, projection_at, query_at, run,
    skip, successor_at, zero_at, CharClass,
};
use crate::shape::{is_ascii_between, lemma_matched_text_ascii, placed};
use crate::syntax::{models, Node, Pair, Rule};
use vstd::prelude::*;

verus! {

/// Tells whether `found` is what a rule yields on `s` at `pos`, given that
/// `expected` is what it yields.
spec fn yields(found: Option<Pair>, expected: Option<Node>, s: Seq<char>, pos: nat) -> bool {
    match found {
        Some(pair) => expected == Some(pair@) && placed(s, pos, pair@),
        None => expected is None,
    }
}

/// The result of a search for further items when `found` were found
/// before.
spec fn extend(found: Seq<Node>, further: Option<(Seq<Node>, nat)>) -> Option<(Seq<Node>, nat)> {
    match further {
        Some((others, end)) => Some((found + others, end)),
        None => None,
    }
}

/// The characters of `input`.
fn characters(input: &str) -> (chars: Vec<char>)
    ensures
        chars@ == input@,
{
    let mut chars: Vec<char> = Vec::new();
    for c in it: input.chars()
        invariant
            chars@ == it.seq().take(it.index() as int),
    {
        chars.push(c);
    }
    chars
}

/// Tells whether `c` belongs to `class`.
fn belongs(class: CharClass, c: char) -> (b: bool)
    ensures
        b == in_class(class, c),
{
    match class {
        CharClass::Blank => c == ' ' || c == '\t' || c == '\n' || c == '\r',
        CharClass::Digit => '0' <= c && c <= '9',
        CharClass::Word => ('a' <= c && c <= 'z') || ('A' <= c && c <= 'Z') || ('0' <= c && c
            <= '9') || c == '_',
    }
}

/// The end of the longest run of characters of `class` from `pos` on.
fn scan(chars: &Vec<char>, pos: usize, class: CharClass) -> (end: usize)
    requires
        pos <= chars.len(),
    ensures
        end == pos + run(chars@, pos as nat, class),
        end <= chars.len(),
{
    let mut end: usize = pos;
    while end < chars.len() && belongs(class, chars[end])
        invariant
            pos <= end <= chars.len(),
            run(chars@, pos as nat, class) == (end - pos) + run(chars@, end as nat, class),
        decreases chars.len() - end,
    {
        end += 1;
    }
    end
}

/// Tells whether `chars` holds `c` at `pos`.
fn holds(chars: &Vec<char>, pos: usize, c: char) -> (b: bool)
    ensures
        b == has_char(chars@, pos as nat, c),
{
    pos < chars.len() && chars[pos] == c
}

/// The node of `rule` that covers `input` from `start` to `end`.
fn cover(rule: Rule, input: &str, start: usize, end: usize, inner: Vec<Pair>) -> (pair: Pair)
    requires
        start <= end <= input@.len(),
    ensures
        pair@ == between(rule, input@, start as nat, end as nat, models(inner@)),
        placed(input@, start as nat, pair@),
{
    Pair::new(rule, input.substring_char(start, end), start, end, inner)
}

/// The node of `rule` that covers `input` from `start` to `end` and has
/// nothing inside.
fn leaf(rule: Rule, input: &str, start: usize, end: usize) -> (pair: Pair)
    requires
        start <= end <= input@.len(),
    ensures
        pair@ == between(rule, input@, start as nat, end as nat, seq![]),
        placed(input@, start as nat, pair@),
{
    let inner: Vec<Pair> = Vec::new();
    assert(models(inner@) =~= seq![]);
    cover(rule, input, start, end, inner)
}

/// Matches `integer` at `pos`.
fn match_integer(input: &str, chars: &Vec<char>, pos: usize) -> (found: Option<Pair>)
    requires
        chars@ == input@,
        pos <= chars.len(),
    ensures
        yields(found, integer_at(input@, pos as nat), input@, pos as nat),
{
    let end = scan(chars, pos, CharClass::Digit);
    if end > pos {
        Some(leaf(Rule::integer, input, pos, end))
    } else {
        None
    }
}

/// Matches `identifier` at `pos`.
fn match_identifier(input: &str, chars: &Vec<char>, pos: usize) -> (found: Option<Pair>)
    requires
        chars@ == input@,
        pos <= chars.len(),
    ensures
        yields(found, identifier_at(input@, pos as nat), input@, pos as nat),
{
    if pos < chars.len() && is_letter_char(chars[pos]) {
        let end = scan(chars, pos + 1, CharClass::Word);
        Some(leaf(Rule::identifier, input, pos, end))
    } else {
        None
    }
}

/// Tells whether `c` is a letter of the Latin alphabet.
fn is_letter_char(c: char) -> (b: bool)
    ensures
        b == is_letter(c),
{
    ('a' <= c && c <= 'z') || ('A' <= c && c <= 'Z')
}

/// Matches `zero` at `pos`.
fn match_zero(input: &str, chars: &Vec<char>, pos: usize) -> (found: Option<Pair>)
    requires
        chars@ == input@,
        pos <= chars.len(),
    ensures
        yields(found, zero_at(input@, pos as nat), input@, pos as nat),
{
    if holds(chars, pos, '$') && holds(chars, pos + 1, 'z') {
        Some(leaf(Rule::zero, input, pos, pos + 2))
    } else {
        None
    }
}

/// Matches `successor` at `pos`.
fn match_successor(input: &str, chars: &Vec<char>, pos: usize) -> (found: Option<Pair>)
    requires
        chars@ == input@,
        pos <= chars.len(),
    ensures
        yields(found, successor_at(input@, pos as nat), input@, pos as nat),
{
    if holds(chars, pos, '$') && holds(chars, pos + 1, 's') {
        Some(leaf(Rule::successor, input, pos, pos + 2))
    } else {
        None
    }
}

/// Matches `projection` at `pos`.
fn match_projection(input: &str, chars: &Vec<char>, pos: usize) -> (found: Option<Pair>)
    requires
        chars@ == input@,
        pos <= chars.len(),
    ensures
        yields(found, projection_at(input@, pos as nat), input@, pos as nat),
{
    if !(holds(chars, pos, '$') && holds(chars, pos + 1, 'p')) {
        return None;
    }
    let arity = match match_integer(input, chars, pos + 2) {
        Some(arity) => arity,
        None => {
            return None;
        },
    };
    let dot = arity.as_span().end();
    if !holds(chars, dot, '.') {
        return None;
    }
    let index = match match_integer(input, chars, dot + 1) {
        Some(index) => index,
        None => {
            return None;
        },
    };
    let end = index.as_span().end();
    let mut inner: Vec<Pair> = Vec::new();
    inner.push(arity);
    inner.push(index);
    assert(models(inner@) =~= seq![arity@, index@]);
    Some(cover(Rule::projection, input, pos, end, inner))
}

/// Matches `recursive_function` at `pos`.
fn match_function(input: &str, chars: &Vec<char>, pos: usize) -> (found: Option<Pair>)
    requires
        chars@ == input@,
        pos <= chars.len(),
    ensures
        yields(found, function_at(input@, pos as nat), input@, pos as nat),
    decreases chars.len() - pos, 1nat,
{
    let mut choice = match_zero(input, chars, pos);
    if choice.is_none() {
        choice = match_successor(input, chars, pos);
    }
    if choice.is_none() {
        choice = match_projection(input, chars, pos);
    }
    if choice.is_none() {
        choice = match_composition(input, chars, pos);
    }
    if choice.is_none() {
        choice = match_primitive(input, chars, pos);
    }
    if choice.is_none() {
        choice = match_minimization(input, chars, pos);
    }
    if choice.is_none() {
        choice = match_identifier(input, chars, pos);
    }
    match choice {
        Some(node) => {
            let end = node.as_span().end();
            let mut inner: Vec<Pair> = Vec::new();
            inner.push(node);
            assert(models(inner@) =~= seq![node@]);
            let pair = cover(Rule::recursive_function, input, pos, end, inner);
            Some(pair)
        },
        None => None,
    }
}

/// Matches `composition` at `pos`.
fn match_composition(input: &str, chars: &Vec<char>, pos: usize) -> (found: Option<Pair>)
    requires
        chars@ == input@,
        pos <= chars.len(),
    ensures
        yields(found, composition_at(input@, pos as nat), input@, pos as nat),
    decreases chars.len() - pos, 0nat,
{
    if !holds(chars, pos, '(') {
        return None;
    }
    let base_pos = scan(chars, pos + 1, CharClass::Blank);
    let base = match match_function(input, chars, base_pos) {
        Some(base) => base,
        None => {
            return None;
        },
    };
    let colon = scan(chars, base.as_span().end(), CharClass::Blank);
    if !holds(chars, colon, ':') {
        return None;
    }
    let first_pos = scan(chars, colon + 1, CharClass::Blank);
    let first = match match_function(input, chars, first_pos) {
        Some(first) => first,
        None => {
            return None;
        },
    };
    let ghost start = skip(input@, first_pos as nat + first@.text.len());
    let ghost head = seq![base@, first@];
    let mut cursor = scan(chars, first.as_span().end(), CharClass::Blank);
    let mut inner: Vec<Pair> = Vec::new();
    inner.push(base);
    inner.push(first);
    loop
        invariant
            chars@ == input@,
            pos < cursor <= chars.len(),
            models(inner@).len() >= 2,
            models(inner@).subrange(0, 2) == head,
            composition_at(input@, pos as nat) == match components_at(input@, start) {
                Some((others, end)) => Some(
                    between(Rule::composition, input@, pos as nat, end, head + others),
                ),
                None => None,
            },
            components_at(input@, start) == extend(
                models(inner@).subrange(2, inner.len() as int),
                components_at(input@, cursor as nat),
            ),
        decreases chars.len() - cursor,
    {
        if holds(chars, cursor, ')') {
            let ghost others = models(inner@).subrange(2, inner.len() as int);
            assert(head + others =~= models(inner@));
            return Some(cover(Rule::composition, input, pos, cursor + 1, inner));
        }
        if !holds(chars, cursor, ',') {
            return None;
        }
        let next_pos = scan(chars, cursor + 1, CharClass::Blank);
        let next = match match_function(input, chars, next_pos) {
            Some(next) => next,
            None => {
                return None;
            },
        };
        let ghost found = models(inner@).subrange(2, inner.len() as int);
        let ghost rest = components_at(input@, skip(input@, next_pos as nat + next@.text.len()));
        cursor = scan(chars, next.as_span().end(), CharClass::Blank);
        inner.push(next);
        assert(models(inner@).subrange(2, inner.len() as int) =~= found.push(next@));
        assert(rest matches Some((others, _)) ==> found + (seq![next@] + others) =~= found.push(
            next@,
        ) + others);
    }
}

/// Matches `primitive` at `pos`.
fn match_primitive(input: &str, chars: &Vec<char>, pos: usize) -> (found: Option<Pair>)
    requires
        chars@ == input@,
        pos <= chars.len(),
    ensures
        yields(found, primitive_at(input@, pos as nat), input@, pos as nat),
    decreases chars.len() - pos, 0nat,
{
    if !holds(chars, pos, '[') {
        return None;
    }
    let base_pos = scan(chars, pos + 1, CharClass::Blank);
    let base = match match_function(input, chars, base_pos) {
        Some(base) => base,
        None => {
            return None;
        },
    };
    let comma = scan(chars, base.as_span().end(), CharClass::Blank);
    if !holds(chars, comma, ',') {
        return None;
    }
    let step_pos = scan(chars, comma + 1, CharClass::Blank);
    let step = match match_function(input, chars, step_pos) {
        Some(step) => step,
        None => {
            return None;
        },
    };
    let close = scan(chars, step.as_span().end(), CharClass::Blank);
    if !holds(chars, close, ']') {
        return None;
    }
    let mut inner: Vec<Pair> = Vec::new();
    inner.push(base);
    inner.push(step);
    assert(models(inner@) =~= seq![base@, step@]);
    Some(cover(Rule::primitive, input, pos, close + 1, inner))
}

/// Matches `minimization` at `pos`.
fn match_minimization(input: &str, chars: &Vec<char>, pos: usize) -> (found: Option<Pair>)
    requires
        chars@ == input@,
        pos <= chars.len(),
    ensures
        yields(found, minimization_at(input@, pos as nat), input@, pos as nat),
    decreases chars.len() - pos, 0nat,
{
    if !holds(chars, pos, '{') {
        return None;
    }
    let base_pos = scan(chars, pos + 1, CharClass::Blank);
    let base = match match_function(input, chars, base_pos) {
        Some(base) => base,
        None => {
            return None;
        },
    };
    let comma = scan(chars, base.as_span().end(), CharClass::Blank);
    if !holds(chars, comma, ',') {
        return None;
    }
    let bound_pos = scan(chars, comma + 1, CharClass::Blank);
    let bound = match match_integer(input, chars, bound_pos) {
        Some(bound) => bound,
        None => {
            return None;
        },
    };
    let close = scan(chars, bound.as_span().end(), CharClass::Blank);
    if !holds(chars, close, '}') {
        return None;
    }
    let mut inner: Vec<Pair> = Vec::new();
    inner.push(base);
    inner.push(bound);
    assert(models(inner@) =~= seq![base@, bound@]);
    Some(cover(Rule::minimization, input, pos, close + 1, inner))
}

/// Matches one definition at `pos`.
fn match_definition(input: &str, chars: &Vec<char>, pos: usize) -> (found: Option<
    (Pair, Pair, usize),
>)
    requires
        chars@ == input@,
        pos <= chars.len(),
    ensures
        match found {
            Some((name, body, next)) => definition_at(input@, pos as nat) == Some(
                (name@, body@, next as nat),
            ) && pos < next <= chars.len(),
            None => definition_at(input@, pos as nat) is None,
        },
{
    let name = match match_identifier(input, chars, pos) {
        Some(name) => name,
        None => {
            return None;
        },
    };
    let equals = scan(chars, name.as_span().end(), CharClass::Blank);
    if !holds(chars, equals, '=') {
        return None;
    }
    let body_pos = scan(chars, equals + 1, CharClass::Blank);
    let body = match match_function(input, chars, body_pos) {
        Some(body) => body,
        None => {
            return None;
        },
    };
    let semicolon = scan(chars, body.as_span().end(), CharClass::Blank);
    if !holds(chars, semicolon, ';') {
        return None;
    }
    let next = scan(chars, semicolon + 1, CharClass::Blank);
    Some((name, body, next))
}

/// Matches `functions` on the whole of `input`.
#[verifier::rlimit(40)]
fn match_functions(input: &str, chars: &Vec<char>) -> (found: Option<Pair>)
    requires
        chars@ == input@,
    ensures
        yields(found, functions_at(input@), input@, 0),
{
    let start = scan(chars, 0, CharClass::Blank);
    let mut cursor = start;
    let mut inner: Vec<Pair> = Vec::new();
    loop
        invariant
            chars@ == input@,
            cursor <= chars.len(),
            start == skip(input@, 0),
            definitions_at(input@, start as nat) == after(
                models(inner@),
                definitions_at(input@, cursor as nat),
            ),
        decreases chars.len() - cursor,
    {
        let (name, body, next) = match match_definition(input, chars, cursor) {
            Some(definition) => definition,
            None => {
                return None;
            },
        };
        let ghost before = models(inner@);
        let ghost rest = definitions_at(input@, next as nat);
        inner.push(name);
        inner.push(body);
        assert(models(inner@) =~= before + seq![name@, body@]);
        if next >= chars.len() {
            let end = leaf(Rule::EOI, input, chars.len(), chars.len());
            inner.push(end);
            assert(models(inner@) =~= before + seq![name@, body@, end_of_input(input@)]);
            return Some(cover(Rule::functions, input, 0, chars.len(), inner));
        }
        assert(rest matches Some(others) ==> before + (seq![name@, body@] + others) =~= (before
            + seq![name@, body@]) + others);
        cursor = next;
    }
}

/// Matches `query` on the whole of `input`.
fn match_query(input: &str, chars: &Vec<char>) -> (found: Option<Pair>)
    requires
        chars@ == input@,
    ensures
        yields(found, query_at(input@), input@, 0),
{
    let name_pos = scan(chars, 0, CharClass::Blank);
    let name = match match_identifier(input, chars, name_pos) {
        Some(name) => name,
        None => {
            return None;
        },
    };
    let start = scan(chars, name.as_span().end(), CharClass::Blank);
    let mut cursor = start;
    let mut inner: Vec<Pair> = Vec::new();
    inner.push(name);
    while cursor < chars.len()
        invariant
            chars@ == input@,
            cursor <= chars.len(),
            start <= chars.len(),
            query_at(input@) == match arguments_at(input@, start as nat) {
                Some(others) => Some(
                    between(Rule::query, input@, 0, input@.len(), seq![name@] + others),
                ),
                None => None,
            },
            after(seq![name@], arguments_at(input@, start as nat)) == after(
                models(inner@),
                arguments_at(input@, cursor as nat),
            ),
        decreases chars.len() - cursor,
    {
        let argument = match match_integer(input, chars, cursor) {
            Some(argument) => argument,
            None => {
                return None;
            },
        };
        let ghost before = models(inner@);
        let ghost rest = arguments_at(input@, skip(input@, argument@.end));
        cursor = scan(chars, argument.as_span().end(), CharClass::Blank);
        inner.push(argument);
        assert(models(inner@) =~= before.push(argument@));
        assert(rest matches Some(others) ==> before + (seq![argument@] + others) =~= before.push(
            argument@,
        ) + others);
    }
    let ghost before = models(inner@);
    let end = leaf(Rule::EOI, input, chars.len(), chars.len());
    inner.push(end);
    assert(models(inner@) =~= before + seq![end_of_input(input@)]);
    Some(cover(Rule::query, input, 0, chars.len(), inner))
}

/// The failure of a rule to match a text.
#[derive(Clone, Copy, Debug, PartialEq, Eq, Structural)]
pub struct SyntaxError {
    /// The rule that did not match.
    pub rule: Rule,
}

/// The grammar parser for recursive functions.
pub struct RecurFunctionGrammar;

impl RecurFunctionGrammar {
    /// Matches `rule` at the start of `input`. Gives the node of the rule
    /// with the nodes inside it, and nothing for a blank. The text up to the
    /// end of that node is ASCII: the span of the node, which counts
    /// characters, counts the bytes of `input` as well.
    pub fn parse(rule: Rule, input: &str) -> (result: Result<Vec<Pair>, SyntaxError>)
        ensures
            match result {
                Ok(pairs) => {
                    &&& parse_at_start(rule, input@) == Some(models(pairs@))
                    &&& pairs.len() == models(pairs@).len()
                    &&& forall|k: int|
                        0 <= k < pairs.len() ==> is_ascii_between(
                            input@,
                            0,
                            (#[trigger] pairs[k])@.end,
                        )
                },
                Err(error) => parse_at_start(rule, input@) is None && error.rule == rule,
            },
    {
        proof {
            lemma_matched_text_ascii(rule, input@);
        }
        let chars = characters(input);
        let mut pairs: Vec<Pair> = Vec::new();
        let found = match rule {
            Rule::EOI => {
                if chars.len() == 0 {
                    Some(leaf(Rule::EOI, input, 0, 0))
                } else {
                    None
                }
            },
            Rule::WHITESPACE => {
                if chars.len() > 0 && belongs(CharClass::Blank, chars[0]) {
                    return Ok(pairs);
                } else {
                    None
                }
            },
            Rule::integer => match_integer(input, &chars, 0),
            Rule::identifier => match_identifier(input, &chars, 0),
            Rule::zero => match_zero(input, &chars, 0),
            Rule::successor => match_successor(input, &chars, 0),
            Rule::projection => match_projection(input, &chars, 0),
            Rule::composition => match_composition(input, &chars, 0),
            Rule::primitive => match_primitive(input, &chars, 0),
            Rule::minimization => match_minimization(input, &chars, 0),
            Rule::recursive_function => match_function(input, &chars, 0),
            Rule::functions => match_functions(input, &chars),
            Rule::query => match_query(input, &chars),
        };
        match found {
            Some(pair) => {
                pairs.push(pair);
                assert(models(pairs@)[0] == pairs[0]@);
                Ok(pairs)
            },
            None => Err(SyntaxError { rule }),
        }
    }
}

} // verus!
