//! Runtime values: the transient value model that coercion validates.

use vstd::prelude::*;

verus! {

broadcast use vstd::std_specs::vec::group_vec_axioms;

/// A transient runtime value, as handed to the coercion engine before a
/// fact is stored.  A floating-point payload is carried as its IEEE 754
/// bit pattern and a UUID as its 128-bit integer form, so that values
/// stay plain data.
#[derive(Debug, PartialEq, Eq)]
pub enum Value {
    Null,
    Bool(bool),
    Int(i64),
    Float(u64),
    Text(String),
    Uuid(u128),
    List(Vec<Value>),
}

/// Structural equivalence of two runtime values, comparing list members
/// position by position and text by its character sequence.
pub open spec fn veq(a: Value, b: Value) -> bool
    decreases a,
{
    match (a, b) {
        (Value::Null, Value::Null) => true,
        (Value::Bool(x), Value::Bool(y)) => x == y,
        (Value::Int(x), Value::Int(y)) => x == y,
        (Value::Float(x), Value::Float(y)) => x == y,
        (Value::Text(x), Value::Text(y)) => x@ == y@,
        (Value::Uuid(x), Value::Uuid(y)) => x == y,
        (Value::List(xs), Value::List(ys)) => {
            &&& xs@.len() == ys@.len()
            &&& forall|i: int| 0 <= i < xs@.len() ==> veq(#[trigger] xs@[i], ys@[i])
        },
        _ => false,
    }
}

/// Equivalence is reflexive.
pub proof fn lemma_veq_refl(a: Value)
    ensures
        veq(a, a),
    decreases a,
{
    match a {
        Value::List(xs) => {
            assert forall|i: int| 0 <= i < xs@.len() implies veq(#[trigger] xs@[i], xs@[i]) by {
                lemma_veq_refl(xs@[i]);
            }
        }
        _ => {}
    }
}

impl Clone for Value {
    /// A structural copy, equivalent to the original.
    #[verifier::loop_isolation(false)]
    fn clone(&self) -> (res: Self)
        ensures
            veq(res, *self),
        decreases self,
    {
        match self {
            Value::Null => Value::Null,
            Value::Bool(b) => Value::Bool(*b),
            Value::Int(i) => Value::Int(*i),
            Value::Float(f) => Value::Float(*f),
            Value::Text(s) => Value::Text(s.clone()),
            Value::Uuid(u) => Value::Uuid(*u),
            Value::List(vs) => {
                let mut out: Vec<Value> = Vec::new();
                let mut k: usize = 0;
                while k < vs.len()
                    invariant
                        k <= vs@.len(),
                        out@.len() == k,
                        forall|i: int| 0 <= i < k ==> veq(#[trigger] out@[i], vs@[i]),
                    decreases vs@.len() - k,
                {
                    out.push(vs[k].clone());
                    k += 1;
                }
                Value::List(out)
            }
        }
    }
}

} // verus!
