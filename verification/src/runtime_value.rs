//! The values that variables and expressions take when a strategy runs.

use vstd::prelude::*;
use crate::ast::FloatBits;
use crate::types::{tys_of, Ty, TypeSpec};

verus! {

/// A runtime value: the value of a variable or expression while a strategy
/// runs. `T` is the type of an assembled background task, which the library
/// only carries (the interpreter chooses it).
#[derive(Debug)]
pub enum RuntimeValue<T> {
    Price(FloatBits),
    /// An amount and its unit (an empty unit: none).
    Amount(FloatBits, String),
    Duration(FloatBits),
    TimePoint(FloatBits),
    Percent(FloatBits),
    Count(FloatBits),
    Number(FloatBits),
    Bool(bool),
    Str(String),
    Tuple(Vec<RuntimeValue<T>>),
    /// A list.
    List(Vec<RuntimeValue<T>>),
    Unit,
    /// Not initialised (the value of destructured variables when a buy
    /// failed).
    Uninit,
    /// An assembled background task (built from `Spawn[...]`, handed to the
    /// `Spawn` executor).
    Task(T),
}

/// The type of a runtime value.
pub open spec fn runtime_ty<T>(v: RuntimeValue<T>) -> Ty
    decreases v,
{
    match v {
        RuntimeValue::Price(_) => Ty::Price,
        RuntimeValue::Amount(_, _) => Ty::Amount,
        RuntimeValue::Duration(_) => Ty::Duration,
        RuntimeValue::TimePoint(_) => Ty::TimePoint,
        RuntimeValue::Percent(_) => Ty::Percent,
        RuntimeValue::Count(_) => Ty::Count,
        RuntimeValue::Number(_) => Ty::Number,
        RuntimeValue::Bool(_) => Ty::Bool,
        RuntimeValue::Str(_) => Ty::String,
        RuntimeValue::Tuple(vals) => Ty::Tuple(runtime_tys(vals@)),
        RuntimeValue::List(vals) => Ty::List(
            Box::new(
                if vals@.len() > 0 {
                    runtime_ty(vals[0])
                } else {
                    Ty::Any
                },
            ),
        ),
        RuntimeValue::Unit => Ty::Any,
        RuntimeValue::Uninit => Ty::Any,
        RuntimeValue::Task(_) => Ty::Any,
    }
}

/// The types of a sequence of runtime values, element by element.
pub open spec fn runtime_tys<T>(s: Seq<RuntimeValue<T>>) -> Seq<Ty>
    decreases s,
{
    if s.len() == 0 {
        Seq::empty()
    } else {
        runtime_tys(s.drop_last()).push(runtime_ty(s.last()))
    }
}

impl<T: Clone> Clone for RuntimeValue<T> {
    fn clone(&self) -> (r: Self)
        ensures
            runtime_ty(r) == runtime_ty(*self),
        decreases self,
    {
        match self {
            RuntimeValue::Price(v) => RuntimeValue::Price(*v),
            RuntimeValue::Amount(v, u) => RuntimeValue::Amount(*v, u.clone()),
            RuntimeValue::Duration(v) => RuntimeValue::Duration(*v),
            RuntimeValue::TimePoint(v) => RuntimeValue::TimePoint(*v),
            RuntimeValue::Percent(v) => RuntimeValue::Percent(*v),
            RuntimeValue::Count(v) => RuntimeValue::Count(*v),
            RuntimeValue::Number(v) => RuntimeValue::Number(*v),
            RuntimeValue::Bool(b) => RuntimeValue::Bool(*b),
            RuntimeValue::Str(s) => RuntimeValue::Str(s.clone()),
            RuntimeValue::Tuple(vals) => RuntimeValue::Tuple(clone_values(vals)),
            RuntimeValue::List(vals) => RuntimeValue::List(clone_values(vals)),
            RuntimeValue::Unit => RuntimeValue::Unit,
            RuntimeValue::Uninit => RuntimeValue::Uninit,
            RuntimeValue::Task(t) => RuntimeValue::Task(t.clone()),
        }
    }
}

fn clone_values<T: Clone>(vals: &Vec<RuntimeValue<T>>) -> (r: Vec<RuntimeValue<T>>)
    ensures
        runtime_tys(r@) == runtime_tys(vals@),
        r@.len() == vals@.len(),
        r@.len() > 0 ==> runtime_ty(r@[0]) == runtime_ty(vals@[0]),
    decreases vals,
{
    let mut out: Vec<RuntimeValue<T>> = Vec::new();
    let mut i: usize = 0;
    while i < vals.len()
        invariant
            i <= vals@.len(),
            out@.len() == i,
            runtime_tys(out@) == runtime_tys(vals@.take(i as int)),
            forall|j: int| 0 <= j < i ==> runtime_ty(#[trigger] out@[j]) == runtime_ty(vals@[j]),
        decreases vals@.len() - i,
    {
        proof {
            assert(decreases_to!(*vals => vals[i as int]));
        }
        let ghost old_out = out@;
        let c = vals[i].clone();
        out.push(c);
        proof {
            assert(out@.drop_last() =~= old_out);
            assert(vals@.take(i + 1).drop_last() =~= vals@.take(i as int));
        }
        i += 1;
    }
    assert(vals@.take(vals@.len() as int) =~= vals@);
    out
}

/// The placeholder for a missing argument.
impl<T> Default for RuntimeValue<T> {
    fn default() -> (r: Self)
        ensures
            r is Uninit,
    {
        RuntimeValue::Uninit
    }
}

impl<T> RuntimeValue<T> {
    /// The number held by a numeric value (the bits of `0.0` for any other
    /// value).
    pub fn as_f64(&self) -> (r: FloatBits)
        ensures
            r == match self {
                RuntimeValue::Price(v) => *v,
                RuntimeValue::Amount(v, _) => *v,
                RuntimeValue::Duration(v) => *v,
                RuntimeValue::TimePoint(v) => *v,
                RuntimeValue::Percent(v) => *v,
                RuntimeValue::Count(v) => *v,
                RuntimeValue::Number(v) => *v,
                _ => FloatBits(0),
            },
    {
        match self {
            RuntimeValue::Price(v)
            | RuntimeValue::Amount(v, _)
            | RuntimeValue::Duration(v)
            | RuntimeValue::TimePoint(v)
            | RuntimeValue::Percent(v)
            | RuntimeValue::Count(v)
            | RuntimeValue::Number(v) => *v,
            _ => FloatBits(0),
        }
    }

    /// Whether the value is uninitialised.
    pub fn is_uninit(&self) -> (r: bool)
        ensures
            r == (self is Uninit),
    {
        matches!(self, RuntimeValue::Uninit)
    }

    /// The type of the value: a tuple's type holds its elements' types, a
    /// list's type is that of its first element (`Any` when empty), and a
    /// unit, an uninitialised value or a task has type `Any`.
    pub fn type_spec(&self) -> (r: TypeSpec)
        ensures
            r@ == runtime_ty(*self),
        decreases self,
    {
        match self {
            RuntimeValue::Price(_) => TypeSpec::Price,
            RuntimeValue::Amount(_, _) => TypeSpec::Amount,
            RuntimeValue::Duration(_) => TypeSpec::Duration,
            RuntimeValue::TimePoint(_) => TypeSpec::TimePoint,
            RuntimeValue::Percent(_) => TypeSpec::Percent,
            RuntimeValue::Count(_) => TypeSpec::Count,
            RuntimeValue::Number(_) => TypeSpec::Number,
            RuntimeValue::Bool(_) => TypeSpec::Bool,
            RuntimeValue::Str(_) => TypeSpec::String,
            RuntimeValue::Tuple(vals) => {
                let mut out: Vec<TypeSpec> = Vec::new();
                let mut i: usize = 0;
                while i < vals.len()
                    invariant
                        i <= vals@.len(),
                        tys_of(out@) == runtime_tys(vals@.take(i as int)),
                        decreases_to!(*self => *vals),
                    decreases vals@.len() - i,
                {
                    proof {
                        assert(decreases_to!(*vals => vals[i as int]));
                    }
                    let ghost old_out = out@;
                    let t = vals[i].type_spec();
                    out.push(t);
                    proof {
                        assert(out@.drop_last() =~= old_out);
                        assert(vals@.take(i + 1).drop_last() =~= vals@.take(i as int));
                    }
                    i += 1;
                }
                assert(vals@.take(vals@.len() as int) =~= vals@);
                TypeSpec::Tuple(out)
            },
            RuntimeValue::List(vals) => {
                let elem = if vals.len() > 0 {
                    proof {
                        assert(decreases_to!(*vals => vals[0]));
                    }
                    vals[0].type_spec()
                } else {
                    TypeSpec::Any
                };
                TypeSpec::List(Box::new(elem))
            },
            RuntimeValue::Unit => TypeSpec::Any,
            RuntimeValue::Uninit => TypeSpec::Any,
            RuntimeValue::Task(_) => TypeSpec::Any,
        }
    }
}

} // verus!
