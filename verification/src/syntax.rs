//! Syntax trees: what the grammar makes of a text and what the tree builder
//! reads.

use vstd::prelude::*;

verus! {

/// The rules of the grammar. A node of a syntax tree bears the rule that
/// matched its text.
#[allow(non_camel_case_types)]
#[derive(Clone, Copy, Debug, PartialEq, Eq, Hash, Structural)]
pub enum Rule {
    /// The end of the input.
    EOI,
    /// One character that may separate tokens.
    WHITESPACE,
    /// A run of decimal digits.
    integer,
    /// A name: a letter, then letters, digits and underscores.
    identifier,
    /// `$z`.
    zero,
    /// `$s`.
    successor,
    /// `$p`, the arity, a dot and the index, with nothing between them.
    projection,
    /// `(base:f1,f2,...)`.
    composition,
    /// `[base,step]`.
    primitive,
    /// `{base,bound}`.
    minimization,
    /// Any one of the six kinds of function, or the name of a function.
    recursive_function,
    /// A script: definitions `name=function;` up to the end of the input.
    functions,
    /// A query: a name and its arguments, up to the end of the input.
    query,
}

/// A node of a syntax tree: the model of [`Pair`].
pub struct Node {
    /// The rule that matched.
    pub rule: Rule,
    /// The text that it matched.
    pub text: Seq<char>,
    /// Where that text starts in the input: the number of characters
    /// before it.
    pub start: nat,
    /// Where that text ends in the input: the number of characters before
    /// its end.
    pub end: nat,
    /// The nodes of the rules that matched inside this one, in order.
    pub children: Seq<Node>,
}

/// The part of the input that a node covers. Positions count the
/// characters before them.
#[derive(Clone, Copy, Debug, PartialEq, Eq, Structural)]
pub struct Span {
    start: usize,
    end: usize,
}

impl Span {
    /// The position of the first character.
    pub closed spec fn spec_start(&self) -> usize {
        self.start
    }

    /// The position after the last character.
    pub closed spec fn spec_end(&self) -> usize {
        self.end
    }

    /// The position of the first character.
    #[verifier::when_used_as_spec(spec_start)]
    pub fn start(&self) -> (start: usize)
        ensures
            start == self.spec_start(),
    {
        self.start
    }

    /// The position after the last character.
    #[verifier::when_used_as_spec(spec_end)]
    pub fn end(&self) -> (end: usize)
        ensures
            end == self.spec_end(),
    {
        self.end
    }
}

/// A node of a syntax tree with the nodes inside it.
#[derive(Debug)]
pub struct Pair {
    rule: Rule,
    text: String,
    start: usize,
    end: usize,
    inner: Vec<Pair>,
}

/// The models of `pairs`, in order.
pub open spec fn models(pairs: Seq<Pair>) -> Seq<Node> {
    Seq::new(pairs.len(), |i: int| pairs[i]@)
}

impl Pair {
    /// The model of this node.
    pub closed spec fn model(self) -> Node
        decreases self,
    {
        Node {
            rule: self.rule,
            text: self.text@,
            start: self.start as nat,
            end: self.end as nat,
            children: Seq::new(
                self.inner.len() as nat,
                |i: int|
                    if 0 <= i < self.inner.len() {
                        self.inner[i].model()
                    } else {
                        arbitrary()
                    },
            ),
        }
    }

    /// A node of `rule` on `text`, found from `start` to `end`, with the
    /// nodes `inner` inside it.
    pub fn new(rule: Rule, text: &str, start: usize, end: usize, inner: Vec<Pair>) -> (pair: Pair)
        ensures
            pair@ == (Node {
                rule,
                text: text@,
                start: start as nat,
                end: end as nat,
                children: models(inner@),
            }),
    {
        let pair = Pair { rule, text: text.to_owned(), start, end, inner };
        assert(pair@.children =~= models(inner@));
        pair
    }

    /// The rule that matched.
    pub fn as_rule(&self) -> (rule: Rule)
        ensures
            rule == self@.rule,
    {
        self.rule
    }

    /// The text that the rule matched.
    pub fn as_str(&self) -> (text: &str)
        ensures
            text@ == self@.text,
    {
        self.text.as_str()
    }

    /// Where the text was found.
    pub fn as_span(&self) -> (span: Span)
        ensures
            span.start() == self@.start,
            span.end() == self@.end,
    {
        Span { start: self.start, end: self.end }
    }

    /// The nodes inside this one.
    pub fn inner(&self) -> (inner: &Vec<Pair>)
        ensures
            models(inner@) == self@.children,
            inner.len() == self@.children.len(),
    {
        &self.inner
    }

    /// The nodes inside this one, leaving the node itself behind.
    pub fn into_inner(self) -> (inner: Vec<Pair>)
        ensures
            models(inner@) == self@.children,
            inner.len() == self@.children.len(),
    {
        self.inner
    }
}

impl View for Pair {
    type V = Node;

    open spec fn view(&self) -> Node {
        self.model()
    }
}

} // verus!
