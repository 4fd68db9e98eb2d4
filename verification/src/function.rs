//! The validated representation of a recursive function, and its
//! mathematical model.

use vstd::prelude::*;

verus! {

/// The shape of a function: the model of [`RecurFunctionType`].
pub enum FunctionKind {
    /// The constant zero.
    Zero,
    /// The successor of the first argument.
    Successor,
    /// Projection with the declared arity and the selected index (from 1).
    Projection(u32, u32),
    /// The base applied to the results of the components.
    Composition(Box<Function>, Seq<Function>),
    /// Recursion on the last argument, from a base and a step.
    PrimitiveRecursion(Box<Function>, Box<Function>),
    /// Bounded search for the least zero of the base in its last argument.
    Minimization(Box<Function>, u32),
}

/// A function with its arity and, where it is a literal number, its value:
/// the model of [`RecurFunction`].
pub struct Function {
    /// What the function is made of.
    pub kind: FunctionKind,
    /// The number of arguments that it takes.
    pub arity: u32,
    /// The number that it is, where it is known to be one.
    pub constant: Option<u32>,
}

impl Function {
    /// The number that a composition is known to be: one more than its one
    /// component where the base is the successor function, the component is
    /// a number and the result is still a 32-bit number.
    pub open spec fn folded(base: Function, parts: Seq<Function>) -> Option<u32> {
        if parts.len() == 1 && parts[0].arity == 1 && base.kind is Successor {
            match parts[0].constant {
                Some(number) => if number < u32::MAX {
                    Some((number + 1) as u32)
                } else {
                    None
                },
                None => None,
            }
        } else {
            None
        }
    }

    /// Tells whether the function is put together by the rules: its parts
    /// are, their arities fit, and its own arity and number are what the
    /// rules give.
    pub open spec fn valid(self) -> bool
        decreases self,
    {
        match self.kind {
            FunctionKind::Zero => self.arity == 1 && self.constant == Some(0u32),
            FunctionKind::Successor => self.arity == 1 && self.constant is None,
            FunctionKind::Projection(arity, index) => {
                &&& 1 <= index <= arity
                &&& self.arity == arity
                &&& self.constant is None
            },
            FunctionKind::Composition(base, parts) => {
                &&& base.valid()
                &&& forall|j: int| 0 <= j < parts.len() ==> (#[trigger] parts[j]).valid()
                &&& parts.len() == base.arity
                &&& forall|j: int| 0 <= j < parts.len() ==> (#[trigger] parts[j]).arity == self.arity
                &&& self.constant == Self::folded(*base, parts)
            },
            FunctionKind::PrimitiveRecursion(base, step) => {
                &&& base.valid()
                &&& step.valid()
                &&& step.arity >= 2
                &&& step.arity == 2 ==> base.arity == 1 && base.constant is Some
                &&& step.arity > 2 ==> base.arity == step.arity - 2
                &&& self.arity == step.arity - 1
                &&& self.constant is None
            },
            FunctionKind::Minimization(base, bound) => {
                &&& base.valid()
                &&& base.arity > 1
                &&& self.arity == base.arity - 1
                &&& self.constant is None
            },
        }
    }
}

/// Types of recursive functions.
#[derive(Debug, PartialEq)]
pub enum RecurFunctionType {
    /// zero function.
    Zero,
    /// successor function.
    Successor,
    /// projection function with arguments count and argument number.
    Projection(u32, u32),
    /// composition function with base function and functions to use.
    Composition(Box<RecurFunction>, Vec<RecurFunction>),
    /// primitive function with base function and step function.
    Primitive(Box<RecurFunction>, Box<RecurFunction>),
    /// minimization function with base function and max tries.
    Minimization(Box<RecurFunction>, u32),
}

/// Struct which describes recursive function.
#[derive(Debug, PartialEq)]
pub struct RecurFunction {
    /// function type.
    function_type: RecurFunctionType,
    /// function arguments count.
    arguments_count: u32,
    /// contains number if function is number otherwise None.
    number: Option<u32>,
}

impl RecurFunctionType {
    /// The model of this kind: the same shape over models of its parts.
    pub open spec fn model(self) -> FunctionKind
        decreases self,
    {
        match self {
            RecurFunctionType::Zero => FunctionKind::Zero,
            RecurFunctionType::Successor => FunctionKind::Successor,
            RecurFunctionType::Projection(n, i) => FunctionKind::Projection(n, i),
            RecurFunctionType::Composition(base, functions) => FunctionKind::Composition(
                Box::new(base.model()),
                Seq::new(
                    functions.len() as nat,
                    |i: int|
                        if 0 <= i < functions.len() {
                            functions[i].model()
                        } else {
                            arbitrary()
                        },
                ),
            ),
            RecurFunctionType::Primitive(base, step) => FunctionKind::PrimitiveRecursion(
                Box::new(base.model()),
                Box::new(step.model()),
            ),
            RecurFunctionType::Minimization(base, max) => FunctionKind::Minimization(
                Box::new(base.model()),
                max,
            ),
        }
    }
}

impl RecurFunction {
    /// The model of this function.
    pub closed spec fn model(self) -> Function
        decreases self,
    {
        Function {
            kind: self.function_type.model(),
            arity: self.arguments_count,
            constant: self.number,
        }
    }
}

impl View for RecurFunctionType {
    type V = FunctionKind;

    open spec fn view(&self) -> FunctionKind {
        self.model()
    }
}

impl View for RecurFunction {
    type V = Function;

    open spec fn view(&self) -> Function {
        self.model()
    }
}

impl RecurFunction {
    /// Puts a function together from its parts.
    pub(crate) fn new(
        function_type: RecurFunctionType,
        arguments_count: u32,
        number: Option<u32>,
    ) -> (f: Self)
        ensures
            f@ == (Function { kind: function_type@, arity: arguments_count, constant: number }),
    {
        RecurFunction { function_type, arguments_count, number }
    }

    /// The kind of the function, with its parts.
    pub fn function_type(&self) -> (kind: &RecurFunctionType)
        ensures
            kind@ == self@.kind,
    {
        &self.function_type
    }

    /// The number of arguments that the function takes.
    pub fn arguments_count(&self) -> (arity: u32)
        ensures
            arity == self@.arity,
    {
        self.arguments_count
    }

    /// The value of the function where it is a literal number.
    pub fn number(&self) -> (constant: Option<u32>)
        ensures
            constant == self@.constant,
    {
        self.number
    }
}

/// A copy of `f`.
fn copy_function(f: &RecurFunction) -> (r: RecurFunction)
    ensures
        r@ == f@,
    decreases f,
{
    RecurFunction {
        function_type: copy_kind(&f.function_type),
        arguments_count: f.arguments_count,
        number: f.number,
    }
}

/// A copy of `kind`.
fn copy_kind(kind: &RecurFunctionType) -> (r: RecurFunctionType)
    ensures
        r@ == kind@,
    decreases kind,
{
    match kind {
        RecurFunctionType::Zero => RecurFunctionType::Zero,
        RecurFunctionType::Successor => RecurFunctionType::Successor,
        RecurFunctionType::Projection(n, i) => RecurFunctionType::Projection(*n, *i),
        RecurFunctionType::Composition(base, functions) => {
            let mut copies: Vec<RecurFunction> = Vec::new();
            let mut i: usize = 0;
            while i < functions.len()
                invariant
                    i <= functions.len(),
                    copies.len() == i,
                    forall|j: int| 0 <= j < i ==> copies[j]@ == functions[j]@,
                    decreases_to!(kind => functions),
                decreases functions.len() - i,
            {
                copies.push(copy_function(&functions[i]));
                i += 1;
            }
            let r = RecurFunctionType::Composition(Box::new(copy_function(base)), copies);
            assert(r@->Composition_1 =~= kind@->Composition_1);
            r
        },
        RecurFunctionType::Primitive(base, step) => RecurFunctionType::Primitive(
            Box::new(copy_function(base)),
            Box::new(copy_function(step)),
        ),
        RecurFunctionType::Minimization(base, max) => RecurFunctionType::Minimization(
            Box::new(copy_function(base)),
            *max,
        ),
    }
}

impl Clone for RecurFunction {
    fn clone(&self) -> (r: Self)
        ensures
            r@ == self@,
    {
        copy_function(self)
    }
}

impl Clone for RecurFunctionType {
    fn clone(&self) -> (r: Self)
        ensures
            r@ == self@,
    {
        copy_kind(self)
    }
}

} // verus!
