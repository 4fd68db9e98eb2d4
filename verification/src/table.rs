//! The name table: the functions defined so far, by name.

use crate::function::{Function, RecurFunction};
use vstd::prelude::*;

verus! {

/// One definition: a name and the function that it stands for.
#[derive(Debug)]
struct Definition {
    name: String,
    function: RecurFunction,
}

/// The functions of a script by their names, in the order of definition.
/// A name is defined once: what it stands for never changes.
#[derive(Debug)]
pub struct NameTable {
    definitions: Vec<Definition>,
}

impl NameTable {
    /// No name is defined twice.
    #[verifier::type_invariant]
    spec fn distinct(self) -> bool {
        forall|i: int, j: int|
            0 <= i < j < self.definitions.len() ==> self.definitions[i].name@
                != self.definitions[j].name@
    }

    /// The mapping that the first `count` definitions make.
    spec fn mapping(self, count: nat) -> Map<Seq<char>, Function>
        decreases count,
    {
        if count == 0 {
            Map::empty()
        } else {
            let last = self.definitions[count - 1];
            self.mapping((count - 1) as nat).insert(last.name@, last.function@)
        }
    }

    /// An empty table.
    pub fn new() -> (table: NameTable)
        ensures
            table@ == Map::<Seq<char>, Function>::empty(),
    {
        NameTable { definitions: Vec::new() }
    }

    /// The position of the last definition of `name`.
    fn position(&self, name: &str) -> (found: Option<usize>)
        ensures
            match found {
                Some(i) => i < self.definitions.len() && self@.contains_key(name@) && self@[name@]
                    == self.definitions[i as int].function@,
                None => !self@.contains_key(name@),
            },
    {
        let wanted = name.to_owned();
        let mut i = self.definitions.len();
        while i > 0
            invariant
                i <= self.definitions.len(),
                wanted@ == name@,
                self@.contains_key(name@) <==> self.mapping(i as nat).contains_key(name@),
                self@.contains_key(name@) ==> self@[name@] == self.mapping(i as nat)[name@],
            decreases i,
        {
            i -= 1;
            if self.definitions[i].name == wanted {
                return Some(i);
            }
        }
        None
    }

    /// Tells whether `name` is defined.
    pub fn contains_key(&self, name: &str) -> (defined: bool)
        ensures
            defined == self@.contains_key(name@),
    {
        self.position(name).is_some()
    }

    /// The function that `name` stands for.
    pub fn get(&self, name: &str) -> (found: Option<&RecurFunction>)
        ensures
            match found {
                Some(function) => self@.contains_key(name@) && function@ == self@[name@],
                None => !self@.contains_key(name@),
            },
    {
        match self.position(name) {
            Some(i) => Some(&self.definitions[i].function),
            None => None,
        }
    }

    /// Defines `name` as `function`, unless `name` is defined already: then
    /// the table stays as it is. Tells whether the definition was made.
    pub fn define(&mut self, name: String, function: RecurFunction) -> (defined: bool)
        ensures
            defined == !old(self)@.contains_key(name@),
            final(self)@ == if defined {
                old(self)@.insert(name@, function@)
            } else {
                old(self)@
            },
    {
        if self.contains_key(name.as_str()) {
            return false;
        }
        let ghost before = *self;
        proof {
            use_type_invariant(&*self);
            before.lemma_mapping_size(before.definitions.len() as nat);
        }
        let mut definitions: Vec<Definition> = Vec::new();
        core::mem::swap(&mut self.definitions, &mut definitions);
        definitions.push(Definition { name, function });
        core::mem::swap(&mut self.definitions, &mut definitions);
        proof {
            self.lemma_mapping_prefix(before, before.definitions.len() as nat);
        }
        true
    }

    /// The number of definitions.
    pub fn len(&self) -> (count: usize)
        ensures
            count == self@.dom().len(),
    {
        proof {
            use_type_invariant(self);
            self.lemma_mapping_size(self.definitions.len() as nat);
        }
        self.definitions.len()
    }

    /// The first `count` definitions map their names and no others, and
    /// as many names as there are definitions.
    proof fn lemma_mapping_size(self, count: nat)
        requires
            self.distinct(),
            count <= self.definitions.len(),
        ensures
            forall|name: Seq<char>|
                self.mapping(count).contains_key(name) <==> exists|i: int|
                    0 <= i < count && self.definitions[i].name@ == name,
            self.mapping(count).dom().finite(),
            self.mapping(count).dom().len() == count,
        decreases count,
    {
        if count > 0 {
            self.lemma_mapping_size((count - 1) as nat);
        }
    }

    /// Two tables that agree on their first `count` definitions make the
    /// same mapping of them.
    proof fn lemma_mapping_prefix(self, other: NameTable, count: nat)
        requires
            count <= self.definitions.len(),
            count <= other.definitions.len(),
            forall|i: int| 0 <= i < count ==> self.definitions[i] == other.definitions[i],
        ensures
            self.mapping(count) == other.mapping(count),
        decreases count,
    {
        if count > 0 {
            self.lemma_mapping_prefix(other, (count - 1) as nat);
        }
    }
}

impl View for NameTable {
    type V = Map<Seq<char>, Function>;

    closed spec fn view(&self) -> Map<Seq<char>, Function> {
        self.mapping(self.definitions.len() as nat)
    }
}

} // verus!
