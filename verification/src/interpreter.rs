//! Interpreter backend: evaluate a program directly against one concrete
//! transaction.
//!
//! The input is the transaction's attribute values, one [`DirValue`] per
//! attribute (the first value listed for a key is the one in effect). Rules
//! are evaluated in declared order; the first rule whose guard is satisfied
//! selects its output, and the program's default output is used when no rule
//! matches. Guard evaluation is strict equality/membership testing with
//! short-circuit boolean semantics. A guard that consults an attribute the
//! input lacks fails the whole evaluation: a malformed input cannot safely
//! select any policy branch.

use vstd::prelude::*;

use crate::ast::{Guard, GuardModel, Program, ProgramModel};
use crate::dir::{key_of, ConnectorChoice, ConnectorChoiceModel, DirKey, DirValue, DirValueModel};
use crate::dir::{NumRefinement, NumValue};

verus! {

/// The attribute value in effect for key `k`, scanning from position `i`.
pub open spec fn lookup_from(input: Seq<DirValueModel>, k: DirKey, i: int) -> Option<DirValueModel>
    decreases input.len() - i,
{
    if i < 0 || i >= input.len() {
        None
    } else if key_of(input[i]) == k {
        Some(input[i])
    } else {
        lookup_from(input, k, i + 1)
    }
}

/// The attribute value in effect for key `k`: the first value listed for it.
pub open spec fn lookup(input: Seq<DirValueModel>, k: DirKey) -> Option<DirValueModel> {
    lookup_from(input, k, 0)
}

/// Whether a concrete attribute value satisfies a guard value. For amounts
/// the guard's refinement decides the comparison; every other key compares by
/// equality.
pub open spec fn value_matches(guard_v: DirValueModel, actual: DirValueModel) -> bool {
    match (guard_v, actual) {
        (DirValueModel::PaymentAmount(g), DirValueModel::PaymentAmount(a)) => match g.refinement {
            Option::None => a.number == g.number,
            Option::Some(NumRefinement::GreaterThan) => a.number > g.number,
            Option::Some(NumRefinement::LessThan) => a.number < g.number,
        },
        _ => guard_v == actual,
    }
}

/// Short-circuit evaluation of a membership test from position `i`:
/// satisfied as soon as one value matches, missing-attribute as soon as one
/// consulted key is absent.
pub open spec fn eval_any(vs: Seq<DirValueModel>, input: Seq<DirValueModel>, i: int) -> Result<
    bool,
    DirKey,
>
    decreases vs.len() - i,
{
    if i < 0 || i >= vs.len() {
        Result::Ok(false)
    } else {
        match lookup(input, key_of(vs[i])) {
            Option::None => Result::Err(key_of(vs[i])),
            Option::Some(a) => if value_matches(vs[i], a) {
                Result::Ok(true)
            } else {
                eval_any(vs, input, i + 1)
            },
        }
    }
}

/// Short-circuit evaluation of a negated membership test from position `i`.
pub open spec fn eval_none(vs: Seq<DirValueModel>, input: Seq<DirValueModel>, i: int) -> Result<
    bool,
    DirKey,
>
    decreases vs.len() - i,
{
    if i < 0 || i >= vs.len() {
        Result::Ok(true)
    } else {
        match lookup(input, key_of(vs[i])) {
            Option::None => Result::Err(key_of(vs[i])),
            Option::Some(a) => if value_matches(vs[i], a) {
                Result::Ok(false)
            } else {
                eval_none(vs, input, i + 1)
            },
        }
    }
}

/// Whether the input satisfies the guard, with short-circuit boolean
/// semantics; `Err` names the first attribute consulted that the input
/// lacks.
pub open spec fn eval_guard(g: GuardModel, input: Seq<DirValueModel>) -> Result<bool, DirKey>
    decreases g,
{
    match g {
        GuardModel::Always => Result::Ok(true),
        GuardModel::Is(v) => match lookup(input, key_of(v)) {
            Option::None => Result::Err(key_of(v)),
            Option::Some(a) => Result::Ok(value_matches(v, a)),
        },
        GuardModel::IsNot(v) => match lookup(input, key_of(v)) {
            Option::None => Result::Err(key_of(v)),
            Option::Some(a) => Result::Ok(!value_matches(v, a)),
        },
        GuardModel::AnyOf(vs) => eval_any(vs, input, 0),
        GuardModel::NoneOf(vs) => eval_none(vs, input, 0),
        GuardModel::And(a, b) => match eval_guard(*a, input) {
            Result::Err(k) => Result::Err(k),
            Result::Ok(false) => Result::Ok(false),
            Result::Ok(true) => eval_guard(*b, input),
        },
        GuardModel::Or(a, b) => match eval_guard(*a, input) {
            Result::Err(k) => Result::Err(k),
            Result::Ok(true) => Result::Ok(true),
            Result::Ok(false) => eval_guard(*b, input),
        },
    }
}

/// Why interpreting a program against an input failed.
#[derive(Clone, Copy, Debug, PartialEq, Eq, Structural)]
pub enum ExecutionError {
    /// A guard consulted this attribute, but the input carries no value for
    /// it.
    MissingInput(DirKey),
}

/// The program's decision from rule position `i` on: the first satisfied
/// rule's output, the default when none is, an error as soon as a guard
/// consults a missing attribute.
pub open spec fn spec_execute_from(p: ProgramModel, input: Seq<DirValueModel>, i: int) -> Result<
    ConnectorChoiceModel,
    ExecutionError,
>
    decreases p.rules.len() - i,
{
    if i < 0 || i >= p.rules.len() {
        Result::Ok(p.default_output)
    } else {
        match eval_guard(p.rules[i].guard, input) {
            Result::Err(k) => Result::Err(ExecutionError::MissingInput(k)),
            Result::Ok(true) => Result::Ok(p.rules[i].output),
            Result::Ok(false) => spec_execute_from(p, input, i + 1),
        }
    }
}

/// The program's decision on the input.
pub open spec fn spec_execute(p: ProgramModel, input: Seq<DirValueModel>) -> Result<
    ConnectorChoiceModel,
    ExecutionError,
> {
    spec_execute_from(p, input, 0)
}

/// Whether an executable decision agrees with the mathematical one.
pub open spec fn execute_result_matches(
    p: ProgramModel,
    input: Seq<DirValueModel>,
    r: Result<ConnectorChoice, ExecutionError>,
) -> bool {
    match (r, spec_execute(p, input)) {
        (Result::Ok(c), Result::Ok(cm)) => c.deep_view() == cm,
        (Result::Err(e), Result::Err(em)) => e == em,
        _ => false,
    }
}

fn value_matches_exec(guard_v: &DirValue, actual: &DirValue) -> (r: bool)
    ensures
        r == value_matches(guard_v.deep_view(), actual.deep_view()),
{
    match (guard_v, actual) {
        (DirValue::PaymentAmount(g), DirValue::PaymentAmount(a)) => {
            let g: NumValue = *g;
            let a: NumValue = *a;
            match g.refinement {
                Option::None => a.number == g.number,
                Option::Some(NumRefinement::GreaterThan) => a.number > g.number,
                Option::Some(NumRefinement::LessThan) => a.number < g.number,
            }
        },
        _ => guard_v.equals(actual),
    }
}

#[verifier::loop_isolation(false)]
fn lookup_exec<'a>(input: &'a Vec<DirValue>, k: DirKey) -> (r: Option<&'a DirValue>)
    ensures
        match r {
            Option::Some(v) => lookup(input.deep_view(), k) == Some(v.deep_view()),
            Option::None => lookup(input.deep_view(), k) == None::<DirValueModel>,
        },
{
    let ghost im = input.deep_view();
    let mut i: usize = 0;
    while i < input.len()
        invariant
            i <= input@.len(),
            lookup_from(im, k, 0) == lookup_from(im, k, i as int),
        decreases input@.len() - i,
    {
        if input[i].key() == k {
            return Option::Some(&input[i]);
        }
        i = i + 1;
    }
    Option::None
}

#[verifier::loop_isolation(false)]
fn eval_guard_exec(g: &Guard, input: &Vec<DirValue>) -> (r: Result<bool, DirKey>)
    ensures
        r == eval_guard(g.deep_view(), input.deep_view()),
    decreases *g,
{
    let ghost im = input.deep_view();
    match g {
        Guard::Always => Result::Ok(true),
        Guard::Is(v) => match lookup_exec(input, v.key()) {
            Option::None => Result::Err(v.key()),
            Option::Some(a) => Result::Ok(value_matches_exec(v, a)),
        },
        Guard::IsNot(v) => match lookup_exec(input, v.key()) {
            Option::None => Result::Err(v.key()),
            Option::Some(a) => Result::Ok(!value_matches_exec(v, a)),
        },
        Guard::AnyOf(vs) => {
            let ghost vm = vs.deep_view();
            let mut i: usize = 0;
            while i < vs.len()
                invariant
                    i <= vs@.len(),
                    eval_any(vm, im, 0) == eval_any(vm, im, i as int),
                decreases vs@.len() - i,
            {
                match lookup_exec(input, vs[i].key()) {
                    Option::None => {
                        return Result::Err(vs[i].key());
                    },
                    Option::Some(a) => {
                        if value_matches_exec(&vs[i], a) {
                            return Result::Ok(true);
                        }
                    },
                }
                i = i + 1;
            }
            Result::Ok(false)
        },
        Guard::NoneOf(vs) => {
            let ghost vm = vs.deep_view();
            let mut i: usize = 0;
            while i < vs.len()
                invariant
                    i <= vs@.len(),
                    eval_none(vm, im, 0) == eval_none(vm, im, i as int),
                decreases vs@.len() - i,
            {
                match lookup_exec(input, vs[i].key()) {
                    Option::None => {
                        return Result::Err(vs[i].key());
                    },
                    Option::Some(a) => {
                        if value_matches_exec(&vs[i], a) {
                            return Result::Ok(false);
                        }
                    },
                }
                i = i + 1;
            }
            Result::Ok(true)
        },
        Guard::And(a, b) => match eval_guard_exec(a, input) {
            Result::Err(k) => Result::Err(k),
            Result::Ok(false) => Result::Ok(false),
            Result::Ok(true) => eval_guard_exec(b, input),
        },
        Guard::Or(a, b) => match eval_guard_exec(a, input) {
            Result::Err(k) => Result::Err(k),
            Result::Ok(true) => Result::Ok(true),
            Result::Ok(false) => eval_guard_exec(b, input),
        },
    }
}

/// Evaluate the program against one concrete transaction: the first rule
/// whose guard the input satisfies decides; otherwise the default output.
#[verifier::loop_isolation(false)]
pub fn execute(program: &Program, input: &Vec<DirValue>) -> (r: Result<
    ConnectorChoice,
    ExecutionError,
>)
    ensures
        execute_result_matches(program.deep_view(), input.deep_view(), r),
{
    let ghost pm = program.deep_view();
    let ghost im = input.deep_view();
    let mut i: usize = 0;
    while i < program.rules.len()
        invariant
            i <= program.rules@.len(),
            spec_execute(pm, im) == spec_execute_from(pm, im, i as int),
        decreases program.rules@.len() - i,
    {
        match eval_guard_exec(&program.rules[i].guard, input) {
            Result::Err(k) => {
                return Result::Err(ExecutionError::MissingInput(k));
            },
            Result::Ok(true) => {
                return Result::Ok(program.rules[i].output.duplicate());
            },
            Result::Ok(false) => {},
        }
        i = i + 1;
    }
    Result::Ok(program.default_output.duplicate())
}

} // verus!
