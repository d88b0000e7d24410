//! The target-agnostic expression tree a backend lowers to, runtime
//! values, and the evaluator that gives the tree its meaning.
//!
//! A lowered size expression reads a runtime value: field accesses by
//! name, counts of arrays and buffers, integer reads for externally
//! supplied lengths and discriminants, sums over array elements, and a
//! discriminant-dispatching conditional. The renderer that turns such a
//! tree into target source text is a purely syntactic external
//! collaborator; the evaluator here is the tree's reference semantics,
//! used by the conformance tests.

use vstd::prelude::*;
use crate::errors::EvalError;

verus! {

/// A runtime value conforming to some type: an unsigned integer
/// scalar, a record of named fields in wire order, an array of
/// elements, or a raw byte string.
#[derive(Debug)]
pub enum Value {
    Uint(u64),
    Record(Vec<(String, Value)>),
    Array(Vec<Value>),
    Bytes(Vec<u8>),
}

/// A size expression: the small AST of arithmetic and field-access
/// operations that the lowering backend emits.
#[derive(Debug)]
pub enum SizeExpr {
    /// A constant byte count.
    Const(u64),
    /// Sum of two sub-expressions.
    Add(Box<SizeExpr>, Box<SizeExpr>),
    /// Product of two sub-expressions.
    Mul(Box<SizeExpr>, Box<SizeExpr>),
    /// Evaluate the body against the named field of the current record.
    Field(String, Box<SizeExpr>),
    /// The integer value of the named field of the current record.
    ReadField(String),
    /// The element or byte count of the named field of the current
    /// record.
    LenOfField(String),
    /// Sum the body over every element of the named array field.
    ForEachField(String, Box<SizeExpr>),
    /// Sum the body over every element of the current array value.
    ForEachCurrent(Box<SizeExpr>),
    /// If the named integer field equals the given discriminant value,
    /// the first branch; otherwise the second.
    Cond(String, u64, Box<SizeExpr>, Box<SizeExpr>),
    /// No union case matched: evaluation fails.
    NoMatch,
}

/// First entry of `entries` whose name is `name`, if any.
pub open spec fn spec_lookup(entries: Seq<(String, Value)>, name: Seq<char>) -> Option<Value>
    decreases entries.len(),
{
    if entries.len() == 0 {
        None
    } else if entries[0].0@ == name {
        Some(entries[0].1)
    } else {
        spec_lookup(entries.drop_first(), name)
    }
}

/// Sum of two optional machine-word counts; `None` propagates, and a
/// sum that does not fit a machine word has no meaning either: the
/// expression semantics is machine arithmetic.
pub open spec fn opt_add(a: Option<nat>, b: Option<nat>) -> Option<nat> {
    match (a, b) {
        (Some(x), Some(y)) => if x + y <= u64::MAX { Some((x + y) as nat) } else { None },
        _ => None,
    }
}

/// Product of two optional machine-word counts, with the same
/// overflow rule as `opt_add`.
pub open spec fn opt_mul(a: Option<nat>, b: Option<nat>) -> Option<nat> {
    match (a, b) {
        (Some(x), Some(y)) => if x * y <= u64::MAX { Some((x * y) as nat) } else { None },
        _ => None,
    }
}

/// The meaning of a size expression against a value: a byte count, or
/// `None` when the value's shape does not fit the expression.
pub open spec fn spec_eval(e: SizeExpr, v: Value) -> Option<nat>
    decreases e, 0int,
{
    match e {
        SizeExpr::Const(n) => Some(n as nat),
        SizeExpr::Add(a, b) => opt_add(spec_eval(*a, v), spec_eval(*b, v)),
        SizeExpr::Mul(a, b) => opt_mul(spec_eval(*a, v), spec_eval(*b, v)),
        SizeExpr::Field(name, body) => match v {
            Value::Record(entries) => match spec_lookup(entries@, name@) {
                Some(fv) => spec_eval(*body, fv),
                None => None,
            },
            _ => None,
        },
        SizeExpr::ReadField(name) => match v {
            Value::Record(entries) => match spec_lookup(entries@, name@) {
                Some(Value::Uint(c)) => Some(c as nat),
                _ => None,
            },
            _ => None,
        },
        SizeExpr::LenOfField(name) => match v {
            Value::Record(entries) => match spec_lookup(entries@, name@) {
                Some(Value::Array(es)) => if es@.len() <= u64::MAX { Some(es@.len()) } else { None },
                Some(Value::Bytes(bs)) => if bs@.len() <= u64::MAX { Some(bs@.len()) } else { None },
                _ => None,
            },
            _ => None,
        },
        SizeExpr::ForEachField(name, body) => match v {
            Value::Record(entries) => match spec_lookup(entries@, name@) {
                Some(Value::Array(es)) => spec_eval_seq(*body, es@),
                _ => None,
            },
            _ => None,
        },
        SizeExpr::ForEachCurrent(body) => match v {
            Value::Array(es) => spec_eval_seq(*body, es@),
            _ => None,
        },
        SizeExpr::Cond(dname, k, then_branch, else_branch) => match v {
            Value::Record(entries) => match spec_lookup(entries@, dname@) {
                Some(Value::Uint(d)) => if d == k {
                    spec_eval(*then_branch, v)
                } else {
                    spec_eval(*else_branch, v)
                },
                _ => None,
            },
            _ => None,
        },
        SizeExpr::NoMatch => None,
    }
}

/// Sum of the body evaluated over each element, in order.
pub open spec fn spec_eval_seq(e: SizeExpr, vs: Seq<Value>) -> Option<nat>
    decreases e, vs.len(),
{
    if vs.len() == 0 {
        Some(0)
    } else {
        opt_add(spec_eval_seq(e, vs.drop_last()), spec_eval(e, vs.last()))
    }
}

/// The unbounded meaning of a size expression: the same semantics as
/// `spec_eval` with exact arithmetic and no machine-word bound. Where
/// this is defined but the machine meaning is not, the only obstacle
/// was overflow — which is what separates the two evaluation errors.
pub open spec fn spec_eval_math(e: SizeExpr, v: Value) -> Option<nat>
    decreases e, 0int,
{
    match e {
        SizeExpr::Const(n) => Some(n as nat),
        SizeExpr::Add(a, b) => match (spec_eval_math(*a, v), spec_eval_math(*b, v)) {
            (Some(x), Some(y)) => Some((x + y) as nat),
            _ => None,
        },
        SizeExpr::Mul(a, b) => match (spec_eval_math(*a, v), spec_eval_math(*b, v)) {
            (Some(x), Some(y)) => Some((x * y) as nat),
            _ => None,
        },
        SizeExpr::Field(name, body) => match v {
            Value::Record(entries) => match spec_lookup(entries@, name@) {
                Some(fv) => spec_eval_math(*body, fv),
                None => None,
            },
            _ => None,
        },
        SizeExpr::ReadField(name) => match v {
            Value::Record(entries) => match spec_lookup(entries@, name@) {
                Some(Value::Uint(c)) => Some(c as nat),
                _ => None,
            },
            _ => None,
        },
        SizeExpr::LenOfField(name) => match v {
            Value::Record(entries) => match spec_lookup(entries@, name@) {
                Some(Value::Array(es)) => Some(es@.len()),
                Some(Value::Bytes(bs)) => Some(bs@.len()),
                _ => None,
            },
            _ => None,
        },
        SizeExpr::ForEachField(name, body) => match v {
            Value::Record(entries) => match spec_lookup(entries@, name@) {
                Some(Value::Array(es)) => spec_eval_seq_math(*body, es@),
                _ => None,
            },
            _ => None,
        },
        SizeExpr::ForEachCurrent(body) => match v {
            Value::Array(es) => spec_eval_seq_math(*body, es@),
            _ => None,
        },
        SizeExpr::Cond(dname, k, then_branch, else_branch) => match v {
            Value::Record(entries) => match spec_lookup(entries@, dname@) {
                Some(Value::Uint(d)) => if d == k {
                    spec_eval_math(*then_branch, v)
                } else {
                    spec_eval_math(*else_branch, v)
                },
                _ => None,
            },
            _ => None,
        },
        SizeExpr::NoMatch => None,
    }
}

/// Unbounded sum of the body over each element.
pub open spec fn spec_eval_seq_math(e: SizeExpr, vs: Seq<Value>) -> Option<nat>
    decreases e, vs.len(),
{
    if vs.len() == 0 {
        Some(0)
    } else {
        match (spec_eval_seq_math(e, vs.drop_last()), spec_eval_math(e, vs.last())) {
            (Some(x), Some(y)) => Some((x + y) as nat),
            _ => None,
        }
    }
}

/// A defined unbounded element-sum defines every element.
proof fn lemma_eval_seq_math_elem(e: SizeExpr, vs: Seq<Value>, j: int)
    requires
        0 <= j < vs.len(),
        spec_eval_seq_math(e, vs) is Some,
    ensures
        spec_eval_math(e, vs[j]) is Some,
    decreases vs.len(),
{
    if j == vs.len() - 1 {
        assert(vs.last() == vs[j]);
    } else {
        assert(vs.drop_last()[j] == vs[j]);
        lemma_eval_seq_math_elem(e, vs.drop_last(), j);
    }
}

/// Once a prefix fails to evaluate, every longer prefix fails too.
pub proof fn lemma_eval_seq_none_extends(e: SizeExpr, vs: Seq<Value>, k: int)
    requires
        0 <= k <= vs.len(),
        spec_eval_seq(e, vs.take(k)) is None,
    ensures
        spec_eval_seq(e, vs) is None,
    decreases vs.len() - k,
{
    if k == vs.len() {
        assert(vs.take(k) =~= vs);
    } else {
        assert(vs.take(k + 1).drop_last() =~= vs.take(k));
        lemma_eval_seq_none_extends(e, vs, k + 1);
    }
}

/// Find the first entry named `name` in a record's field list.
fn lookup_field<'a>(entries: &'a Vec<(String, Value)>, name: &String) -> (r: Option<&'a Value>)
    ensures
        match spec_lookup(entries@, name@) {
            Some(fv) => r matches Some(rv) && *rv == fv,
            None => r is None,
        },
{
    let n: usize = entries.len();
    proof {
        assert(entries@.skip(0) =~= entries@);
    }
    for i in 0..n
        invariant
            n == entries@.len(),
            spec_lookup(entries@, name@) == spec_lookup(entries@.skip(i as int), name@),
    {
        proof {
            assert(entries@.skip(i as int).drop_first() =~= entries@.skip(i as int + 1));
            assert(entries@.skip(i as int)[0] == entries@[i as int]);
        }
        if entries[i].0 == *name {
            return Some(&entries[i].1);
        }
    }
    None
}

/// Evaluate a size expression against a value.
///
/// Exactly when the expression has a meaning on the value (`spec_eval`
/// yields a count), the count is returned, unless it does not fit a
/// machine word, which reports overflow; a value whose shape does not
/// fit the expression is an error.
#[verifier::loop_isolation(false)]
pub fn eval_size(e: &SizeExpr, v: &Value) -> (r: Result<u64, EvalError>)
    ensures
        match spec_eval(*e, *v) {
            Some(n) => n <= u64::MAX && r == Ok::<u64, EvalError>(n as u64),
            None => r is Err,
        },
        (spec_eval(*e, *v) is None && spec_eval_math(*e, *v) is Some)
            ==> r == Err::<u64, EvalError>(EvalError::Overflow),
    decreases *e, 0int,
{
    match e {
        SizeExpr::Const(n) => Ok(*n),
        SizeExpr::Add(a, b) => {
            let x = match eval_size(&**a, v) {
                Ok(x) => x,
                Err(err) => {
                    return Err(err);
                }
            };
            let y = match eval_size(&**b, v) {
                Ok(y) => y,
                Err(err) => {
                    return Err(err);
                }
            };
            match x.checked_add(y) {
                Some(z) => Ok(z),
                None => Err(EvalError::Overflow),
            }
        }
        SizeExpr::Mul(a, b) => {
            let x = match eval_size(&**a, v) {
                Ok(x) => x,
                Err(err) => {
                    return Err(err);
                }
            };
            let y = match eval_size(&**b, v) {
                Ok(y) => y,
                Err(err) => {
                    return Err(err);
                }
            };
            match x.checked_mul(y) {
                Some(z) => Ok(z),
                None => Err(EvalError::Overflow),
            }
        }
        SizeExpr::Field(name, body) => {
            match v {
                Value::Record(entries) => match lookup_field(entries, name) {
                    Some(fv) => eval_size(&**body, fv),
                    None => Err(EvalError::BadShape),
                },
                _ => Err(EvalError::BadShape),
            }
        }
        SizeExpr::ReadField(name) => {
            match v {
                Value::Record(entries) => match lookup_field(entries, name) {
                    Some(fv) => match fv {
                        Value::Uint(c) => Ok(*c),
                        _ => Err(EvalError::BadShape),
                    },
                    None => Err(EvalError::BadShape),
                },
                _ => Err(EvalError::BadShape),
            }
        }
        SizeExpr::LenOfField(name) => {
            match v {
                Value::Record(entries) => match lookup_field(entries, name) {
                    Some(fv) => match fv {
                        Value::Array(es) => Ok(es.len() as u64),
                        Value::Bytes(bs) => Ok(bs.len() as u64),
                        _ => Err(EvalError::BadShape),
                    },
                    None => Err(EvalError::BadShape),
                },
                _ => Err(EvalError::BadShape),
            }
        }
        SizeExpr::ForEachField(name, body) => {
            match v {
                Value::Record(entries) => match lookup_field(entries, name) {
                    Some(fv) => match fv {
                        Value::Array(es) => eval_elements(&**body, es),
                        _ => Err(EvalError::BadShape),
                    },
                    None => Err(EvalError::BadShape),
                },
                _ => Err(EvalError::BadShape),
            }
        }
        SizeExpr::ForEachCurrent(body) => {
            match v {
                Value::Array(es) => eval_elements(&**body, es),
                _ => Err(EvalError::BadShape),
            }
        }
        SizeExpr::Cond(dname, k, then_branch, else_branch) => {
            match v {
                Value::Record(entries) => match lookup_field(entries, dname) {
                    Some(fv) => match fv {
                        Value::Uint(d) => {
                            if *d == *k {
                                eval_size(&**then_branch, v)
                            } else {
                                eval_size(&**else_branch, v)
                            }
                        }
                        _ => Err(EvalError::BadShape),
                    },
                    None => Err(EvalError::BadShape),
                },
                _ => Err(EvalError::BadShape),
            }
        }
        SizeExpr::NoMatch => Err(EvalError::BadShape),
    }
}

/// Sum the body over every element of an array, in order.
#[verifier::loop_isolation(false)]
fn eval_elements(body: &SizeExpr, es: &Vec<Value>) -> (r: Result<u64, EvalError>)
    ensures
        match spec_eval_seq(*body, es@) {
            Some(n) => n <= u64::MAX && r == Ok::<u64, EvalError>(n as u64),
            None => r is Err,
        },
        (spec_eval_seq(*body, es@) is None && spec_eval_seq_math(*body, es@) is Some)
            ==> r == Err::<u64, EvalError>(EvalError::Overflow),
    decreases *body, es@.len(),
{
    let n: usize = es.len();
    let mut acc: u64 = 0;
    proof {
        assert(es@.take(0) =~= Seq::<Value>::empty());
    }
    for i in 0..n
        invariant
            spec_eval_seq(*body, es@.take(i as int)) == Some(acc as nat),
    {
        proof {
            assert(es@.take(i as int + 1).drop_last() =~= es@.take(i as int));
            assert(es@.take(i as int + 1).last() == es@[i as int]);
        }
        match eval_size(body, &es[i]) {
            Ok(x) => {
                match acc.checked_add(x) {
                    Some(z) => {
                        acc = z;
                    }
                    None => {
                        proof {
                            lemma_eval_seq_none_extends(*body, es@, i as int + 1);
                        }
                        return Err(EvalError::Overflow);
                    }
                }
            }
            Err(err) => {
                proof {
                    lemma_eval_seq_none_extends(*body, es@, i as int + 1);
                    if spec_eval_seq_math(*body, es@) is Some {
                        lemma_eval_seq_math_elem(*body, es@, i as int);
                    }
                }
                return Err(err);
            }
        }
    }
    proof {
        assert(es@.take(n as int) =~= es@);
    }
    Ok(acc)
}

} // verus!
