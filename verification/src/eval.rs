//! Evaluation of a recursive function on natural-number arguments.
//!
//! Naturals are 32-bit words. Where a successor would leave that range the
//! result is undefined, as it is wherever an argument is missing or a bounded
//! search finds nothing.

use crate::function::{Function, FunctionKind, RecurFunction, RecurFunctionType};
use vstd::prelude::*;

verus! {

/// The value of `f` on `args`; `None` where it is undefined.
pub open spec fn evaluate(f: Function, args: Seq<u32>) -> Option<u32>
    decreases f, 1nat, 0nat,
{
    match f.kind {
        FunctionKind::Zero => Some(0u32),
        FunctionKind::Successor => if args.len() > 0 && args[0] < u32::MAX {
            Some((args[0] + 1) as u32)
        } else {
            None
        },
        FunctionKind::Projection(_, index) => if 1 <= index <= args.len() {
            Some(args[index - 1])
        } else {
            None
        },
        FunctionKind::Composition(base, components) => {
            let results = evaluate_each(components, args);
            if all_defined(results) {
                evaluate(*base, values(results))
            } else {
                None
            }
        },
        FunctionKind::PrimitiveRecursion(_, _) => if args.len() > 0 {
            recursion(f, args.drop_last(), args.last() as nat)
        } else {
            None
        },
        FunctionKind::Minimization(_, _) => search(f, args, 0),
    }
}

/// The value of each of `components` on `args`, in order.
pub open spec fn evaluate_each(components: Seq<Function>, args: Seq<u32>) -> Seq<Option<u32>>
    decreases components, 0nat, 0nat,
{
    Seq::new(
        components.len(),
        |j: int|
            if 0 <= j < components.len() {
                evaluate(components[j], args)
            } else {
                None
            },
    )
}

/// Tells whether none of `results` is undefined.
pub open spec fn all_defined(results: Seq<Option<u32>>) -> bool {
    forall|j: int| 0 <= j < results.len() ==> (#[trigger] results[j]) is Some
}

/// The values of `results`, where all are defined.
pub open spec fn values(results: Seq<Option<u32>>) -> Seq<u32> {
    Seq::new(results.len(), |j: int| results[j]->0)
}

/// The value of the primitive recursion `f` on the parameters `params` and
/// the recursion argument `n`: the base value for 0, and for `n + 1` the
/// step applied to the parameters, `n` and the value for `n`.
pub open spec fn recursion(f: Function, params: Seq<u32>, n: nat) -> Option<u32>
    decreases f, 0nat, n,
{
    match f.kind {
        FunctionKind::PrimitiveRecursion(base, step) => if n == 0 {
            match base.constant {
                Some(c) => Some(c),
                None => evaluate(*base, params),
            }
        } else {
            match recursion(f, params, (n - 1) as nat) {
                Some(previous) => evaluate(*step, params.push((n - 1) as u32).push(previous)),
                None => None,
            }
        },
        _ => None,
    }
}

/// The result of the minimization `f` on `args` when the candidates below
/// `from` have been tried: the least candidate from `from` up to the bound
/// on which the base is zero, provided the base is defined up to there.
pub open spec fn search(f: Function, args: Seq<u32>, from: nat) -> Option<u32>
    decreases f, 0nat, u32::MAX - from,
{
    match f.kind {
        FunctionKind::Minimization(base, bound) => match evaluate(*base, args.push(from as u32)) {
            Some(value) => if value == 0 {
                Some(from as u32)
            } else if from < bound {
                search(f, args, from + 1)
            } else {
                None
            },
            None => None,
        },
        _ => None,
    }
}

/// Once a primitive recursion is undefined it stays undefined for every
/// larger recursion argument.
pub proof fn lemma_recursion_undefined_onward(f: Function, params: Seq<u32>, k: nat, n: nat)
    requires
        k <= n,
        recursion(f, params, k) is None,
    ensures
        recursion(f, params, n) is None,
    decreases n,
{
    if k < n {
        lemma_recursion_undefined_onward(f, params, k, (n - 1) as nat);
    }
}

/// A primitive recursion on the recursion argument 0 has the value of its
/// base on the parameters, or the number that the base is known to be: the
/// step is not applied.
pub proof fn lemma_recursion_at_zero(f: Function, params: Seq<u32>)
    requires
        f.kind is PrimitiveRecursion,
    ensures
        evaluate(f, params.push(0)) == match f.kind->PrimitiveRecursion_0.constant {
            Some(number) => Some(number),
            None => evaluate(*f.kind->PrimitiveRecursion_0, params),
        },
{
    let args = params.push(0);
    assert(args.drop_last() =~= params);
    assert(evaluate(f, args) == recursion(f, params, 0));
}

/// A primitive recursion on the recursion argument `n + 1` has the value of
/// its step on the parameters, `n` and the value on the recursion argument
/// `n`, and is undefined where that value is.
pub proof fn lemma_recursion_step(f: Function, params: Seq<u32>, n: u32)
    requires
        f.kind is PrimitiveRecursion,
        n < u32::MAX,
    ensures
        evaluate(f, params.push((n + 1) as u32)) == match evaluate(f, params.push(n)) {
            Some(previous) => evaluate(*f.kind->PrimitiveRecursion_1, params.push(n).push(previous)),
            None => None,
        },
{
    let args = params.push((n + 1) as u32);
    assert(args.drop_last() =~= params);
    assert(evaluate(f, args) == recursion(f, params, (n + 1) as nat));
    let before = params.push(n);
    assert(before.drop_last() =~= params);
}

/// A minimization gives the least candidate up to its bound on which the
/// base is zero, provided the base is defined on every candidate up to that
/// one. It is undefined in every other case: where the base is undefined on
/// a candidate before it is zero on one, and where it is zero on none.
pub proof fn lemma_minimization_least(f: Function, args: Seq<u32>, candidate: u32)
    requires
        f.kind is Minimization,
    ensures
        evaluate(f, args) == Some(candidate) <==> {
            &&& candidate <= f.kind->Minimization_1
            &&& evaluate(*f.kind->Minimization_0, args.push(candidate)) == Some(0u32)
            &&& forall|smaller: u32|
                smaller < candidate ==> {
                    let value = #[trigger] evaluate(*f.kind->Minimization_0, args.push(smaller));
                    value is Some && value != Some(0u32)
                }
        },
{
    lemma_search_least(f, args, 0, candidate);
}

/// The search from `from` on gives the least candidate from there up to the
/// bound on which the base is zero, provided the base is defined on every
/// candidate from `from` up to that one.
proof fn lemma_search_least(f: Function, args: Seq<u32>, from: nat, candidate: u32)
    requires
        f.kind is Minimization,
        from <= f.kind->Minimization_1,
    ensures
        search(f, args, from) == Some(candidate) <==> {
            &&& from <= candidate <= f.kind->Minimization_1
            &&& evaluate(*f.kind->Minimization_0, args.push(candidate)) == Some(0u32)
            &&& forall|smaller: u32|
                from <= smaller < candidate ==> {
                    let value = #[trigger] evaluate(*f.kind->Minimization_0, args.push(smaller));
                    value is Some && value != Some(0u32)
                }
        },
    decreases f.kind->Minimization_1 - from,
{
    let base = *f.kind->Minimization_0;
    let bound = f.kind->Minimization_1;
    let here = evaluate(base, args.push(from as u32));
    if here is Some && here != Some(0u32) && from < bound {
        lemma_search_least(f, args, from + 1, candidate);
        if search(f, args, from) == Some(candidate) {
            assert forall|smaller: u32| from <= smaller < candidate implies {
                let value = #[trigger] evaluate(base, args.push(smaller));
                value is Some && value != Some(0u32)
            } by {}
        }
    }
}

/// A function that is put together by the rules and known to be a number
/// has that number as its value, on whatever arguments.
pub proof fn lemma_number_is_value(f: Function, args: Seq<u32>)
    requires
        f.valid(),
        f.constant is Some,
    ensures
        evaluate(f, args) == f.constant,
    decreases f,
{
    match f.kind {
        FunctionKind::Composition(base, parts) => {
            lemma_number_is_value(parts[0], args);
            let results = evaluate_each(parts, args);
            assert(evaluate(*base, values(results)) == f.constant);
        },
        _ => {},
    }
}

/// The first `n` items of `v`.
fn prefix(v: &Vec<u32>, n: usize) -> (r: Vec<u32>)
    requires
        n <= v.len(),
    ensures
        r@ == v@.subrange(0, n as int),
{
    let mut r: Vec<u32> = Vec::new();
    let mut i: usize = 0;
    while i < n
        invariant
            i <= n <= v.len(),
            r@ == v@.subrange(0, i as int),
        decreases n - i,
    {
        r.push(v[i]);
        i += 1;
    }
    r
}

/// Parses given recursive functions on given arguments.
///
/// # Arguments
///
/// * `function` - function to execute.
/// * `arguments` - arguments to use for calculations.
///
/// # Returns
///
/// Some(u32) if result is defined otherwise None.
pub fn execute(function: &RecurFunction, arguments: &Vec<u32>) -> (result: Option<u32>)
    ensures
        result == evaluate(function@, arguments@),
    decreases function@, 1nat,
{
    match function.function_type() {
        RecurFunctionType::Zero => Some(0),
        RecurFunctionType::Successor => {
            if arguments.len() > 0 && arguments[0] < u32::MAX {
                Some(arguments[0] + 1)
            } else {
                None
            }
        },
        RecurFunctionType::Projection(_, argument_number) => {
            let index: usize = *argument_number as usize;
            if 1 <= index && index <= arguments.len() {
                Some(arguments[index - 1])
            } else {
                None
            }
        },
        RecurFunctionType::Composition(base_function, functions) => {
            execute_composition(function, base_function, functions, arguments)
        },
        RecurFunctionType::Primitive(base_function, step_function) => execute_primitive(
            function,
            base_function,
            step_function,
            arguments,
        ),
        RecurFunctionType::Minimization(base_function, max) => execute_minimization(
            function,
            base_function,
            *max,
            arguments,
        ),
    }
}

/// Evaluates the composition `function` of `base_function` with `functions`.
#[verifier::loop_isolation(false)]
fn execute_composition(
    function: &RecurFunction,
    base_function: &RecurFunction,
    functions: &Vec<RecurFunction>,
    arguments: &Vec<u32>,
) -> (result: Option<u32>)
    requires
        function@.kind matches FunctionKind::Composition(base, components) && *base
            == base_function@ && components.len() == functions.len() && forall|j: int|
            0 <= j < functions.len() ==> functions[j]@ == #[trigger] components[j],
    ensures
        result == evaluate(function@, arguments@),
    decreases function@, 0nat,
{
    let ghost components = function@.kind->Composition_1;
    let ghost results = evaluate_each(components, arguments@);
    let mut functions_results: Vec<u32> = Vec::new();
    let mut i: usize = 0;
    while i < functions.len()
        invariant
            i <= functions.len(),
            functions_results.len() == i,
            forall|j: int| 0 <= j < i ==> results[j] == Some(#[trigger] functions_results[j]),
        decreases functions.len() - i,
    {
        match execute(&functions[i], arguments) {
            Some(value) => functions_results.push(value),
            None => {
                assert(results[i as int] is None);
                return None;
            },
        }
        i += 1;
    }
    assert forall|j: int| 0 <= j < results.len() implies (#[trigger] results[j]) is Some by {
        assert(results[j] == Some(functions_results[j]));
    }
    assert(functions_results@ =~= values(results));
    execute(base_function, &functions_results)
}

/// Evaluates the primitive recursion `function` of `base_function` and
/// `step_function`.
#[verifier::loop_isolation(false)]
fn execute_primitive(
    function: &RecurFunction,
    base_function: &RecurFunction,
    step_function: &RecurFunction,
    arguments: &Vec<u32>,
) -> (result: Option<u32>)
    requires
        function@.kind == FunctionKind::PrimitiveRecursion(
            Box::new(base_function@),
            Box::new(step_function@),
        ),
    ensures
        result == evaluate(function@, arguments@),
    decreases function@, 0nat,
{
    let count = arguments.len();
    if count == 0 {
        return None;
    }
    assert(decreases_to!(function@.kind => function@.kind->PrimitiveRecursion_0));
    assert(decreases_to!(function@.kind => function@.kind->PrimitiveRecursion_1));
    let max: u32 = arguments[count - 1];
    let mut work = prefix(arguments, count - 1);
    let mut res: u32 = match base_function.number() {
        Some(number) => number,
        None => match execute(base_function, &work) {
            Some(value) => value,
            None => {
                proof {
                    lemma_recursion_undefined_onward(function@, work@, 0, max as nat);
                }
                return None;
            },
        },
    };
    let mut i: u32 = 0;
    while i < max
        invariant
            i <= max,
            work@ == arguments@.drop_last(),
            recursion(function@, work@, i as nat) == Some(res),
        decreases max - i,
    {
        work.push(i);
        work.push(res);
        let next = execute(step_function, &work);
        work.pop();
        work.pop();
        assert(work@ =~= arguments@.drop_last());
        match next {
            Some(value) => {
                res = value;
            },
            None => {
                proof {
                    lemma_recursion_undefined_onward(function@, work@, (i + 1) as nat, max as nat);
                }
                return None;
            },
        }
        i += 1;
    }
    Some(res)
}

/// Evaluates the minimization `function` of `base_function` up to `max`.
#[verifier::loop_isolation(false)]
fn execute_minimization(
    function: &RecurFunction,
    base_function: &RecurFunction,
    max: u32,
    arguments: &Vec<u32>,
) -> (result: Option<u32>)
    requires
        function@.kind == FunctionKind::Minimization(Box::new(base_function@), max),
    ensures
        result == evaluate(function@, arguments@),
    decreases function@, 0nat,
{
    let mut work = prefix(arguments, arguments.len());
    let mut i: u32 = 0;
    loop
        invariant
            i <= max,
            work@ == arguments@,
            search(function@, arguments@, 0) == search(function@, arguments@, i as nat),
        decreases max - i,
    {
        work.push(i);
        let value = execute(base_function, &work);
        work.pop();
        match value {
            Some(0) => {
                return Some(i);
            },
            Some(_) => {
                if i == max {
                    return None;
                }
            },
            None => {
                return None;
            },
        }
        i += 1;
    }
}

} // verus!
