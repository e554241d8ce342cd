//! The coercion engine: validating a runtime value against a declared
//! type, with exact, non-widening semantics.
//!
//! In the implemented algebra a successful coercion returns the value
//! unchanged; failures carry a typed error naming the offending type and
//! value.  The tuple forms coerce as follows: an unnamed tuple accepts a
//! list of exactly matching arity, member by member; a named tuple
//! accepts a list of two-member `[name, value]` lists whose names equal
//! the declared names in declaration order, the member values coercing
//! against the declared member types.

use crate::typing::Typing;
use crate::typing::TypingError;
use crate::typing::err_eq;
use crate::value::Value;
use crate::value::lemma_veq_refl;
use crate::value::veq;
use vstd::prelude::*;

verus! {

broadcast use vstd::std_specs::vec::group_vec_axioms;

/// The scalar declared types.
pub open spec fn is_scalar(t: Typing) -> bool {
    t matches Typing::Bool || t matches Typing::Int || t matches Typing::Float || t
        matches Typing::Text || t matches Typing::Uuid
}

/// The value's runtime variant agrees exactly with the scalar type `t`.
pub open spec fn scalar_matches(t: Typing, v: Value) -> bool {
    match (t, v) {
        (Typing::Bool, Value::Bool(_)) => true,
        (Typing::Int, Value::Int(_)) => true,
        (Typing::Float, Value::Float(_)) => true,
        (Typing::Text, Value::Text(_)) => true,
        (Typing::Uuid, Value::Uuid(_)) => true,
        _ => false,
    }
}

/// What coercing `v` against `t` returns: the value itself on success,
/// and the first failure otherwise.
pub open spec fn coerce_spec(t: Typing, v: Value) -> Result<Value, TypingError>
    decreases t, 0int,
{
    if (t matches Typing::Any) {
        Ok(v)
    } else if (v matches Value::Null) {
        if (t matches Typing::Nullable(_)) {
            Ok(Value::Null)
        } else {
            Err(TypingError::NotNullViolated(t))
        }
    } else {
        match t {
            Typing::Any => Ok(v),
            Typing::Nullable(t1) => coerce_spec(*t1, v),
            Typing::Bool => if (v matches Value::Bool(_)) {
                Ok(v)
            } else {
                Err(TypingError::TypeMismatch(t, v))
            },
            Typing::Int => if (v matches Value::Int(_)) {
                Ok(v)
            } else {
                Err(TypingError::TypeMismatch(t, v))
            },
            Typing::Float => if (v matches Value::Float(_)) {
                Ok(v)
            } else {
                Err(TypingError::TypeMismatch(t, v))
            },
            Typing::Text => if (v matches Value::Text(_)) {
                Ok(v)
            } else {
                Err(TypingError::TypeMismatch(t, v))
            },
            Typing::Uuid => if (v matches Value::Uuid(_)) {
                Ok(v)
            } else {
                Err(TypingError::TypeMismatch(t, v))
            },
            Typing::Homogeneous(t1) => match v {
                Value::List(vs) => match coerce_list_spec(*t1, vs, 0) {
                    Ok(_) => Ok(v),
                    Err(e) => Err(e),
                },
                _ => Err(TypingError::TypeMismatch(t, v)),
            },
            Typing::UnnamedTuple(ts) => match v {
                Value::List(vs) => if vs@.len() == ts@.len() {
                    match coerce_tuple_spec(ts, vs, 0) {
                        Ok(_) => Ok(v),
                        Err(e) => Err(e),
                    }
                } else {
                    Err(TypingError::TypeMismatch(t, v))
                },
                _ => Err(TypingError::TypeMismatch(t, v)),
            },
            Typing::NamedTuple(ns) => match v {
                Value::List(vs) => if vs@.len() == ns@.len() {
                    match coerce_named_spec(t, v, ns, vs, 0) {
                        Ok(_) => Ok(v),
                        Err(e) => Err(e),
                    }
                } else {
                    Err(TypingError::TypeMismatch(t, v))
                },
                _ => Err(TypingError::TypeMismatch(t, v)),
            },
        }
    }
}

/// Coerce the members of a list against one element type, from position
/// `from` on: the first failure, if any.
pub open spec fn coerce_list_spec(t: Typing, vs: Vec<Value>, from: int) -> Result<(), TypingError>
    decreases t, vs@.len() - from + 1,
{
    if from < 0 || from >= vs@.len() {
        Ok(())
    } else {
        match coerce_spec(t, vs@[from]) {
            Ok(_) => coerce_list_spec(t, vs, from + 1),
            Err(e) => Err(e),
        }
    }
}

/// Coerce the members of an unnamed tuple position by position, from
/// position `from` on: the first failure, if any.
pub open spec fn coerce_tuple_spec(ts: Vec<Typing>, vs: Vec<Value>, from: int) -> Result<
    (),
    TypingError,
>
    decreases ts, vs@.len() - from + 1,
{
    if from < 0 || from >= ts@.len() || from >= vs@.len() {
        Ok(())
    } else {
        match coerce_spec(ts@[from], vs@[from]) {
            Ok(_) => coerce_tuple_spec(ts, vs, from + 1),
            Err(e) => Err(e),
        }
    }
}

/// Coerce the entries of a named tuple in declaration order, from
/// position `from` on.  A malformed entry fails as a mismatch of the
/// whole tuple; a member value's failure propagates unmodified.
pub open spec fn coerce_named_spec(
    tw: Typing,
    vw: Value,
    ns: Vec<(String, Typing)>,
    vs: Vec<Value>,
    from: int,
) -> Result<(), TypingError>
    decreases ns, vs@.len() - from + 1,
{
    if from < 0 || from >= ns@.len() || from >= vs@.len() {
        Ok(())
    } else {
        match vs@[from] {
            Value::List(pair) => if pair@.len() == 2 {
                match pair@[0] {
                    Value::Text(nm) => if nm@ == ns@[from].0@ {
                        match coerce_spec(ns@[from].1, pair@[1]) {
                            Ok(_) => coerce_named_spec(tw, vw, ns, vs, from + 1),
                            Err(e) => Err(e),
                        }
                    } else {
                        Err(TypingError::TypeMismatch(tw, vw))
                    },
                    _ => Err(TypingError::TypeMismatch(tw, vw)),
                }
            } else {
                Err(TypingError::TypeMismatch(tw, vw))
            },
            _ => Err(TypingError::TypeMismatch(tw, vw)),
        }
    }
}

/// One well-formed, successfully coercing named-tuple entry.
pub open spec fn named_entry_ok(e: (String, Typing), ve: Value) -> bool {
    match ve {
        Value::List(pair) => {
            &&& pair@.len() == 2
            &&& match pair@[0] {
                Value::Text(nm) => nm@ == e.0@,
                _ => false,
            }
            &&& coerce_spec(e.1, pair@[1]) is Ok
        },
        _ => false,
    }
}

proof fn lemma_list_prefix(t: Typing, vs: Vec<Value>, k: int)
    requires
        0 <= k <= vs@.len(),
        forall|m: int| 0 <= m < k ==> coerce_spec(t, #[trigger] vs@[m]) is Ok,
    ensures
        coerce_list_spec(t, vs, 0) == coerce_list_spec(t, vs, k),
    decreases k,
{
    if k > 0 {
        lemma_list_prefix(t, vs, k - 1);
    }
}

proof fn lemma_tuple_prefix(ts: Vec<Typing>, vs: Vec<Value>, k: int)
    requires
        0 <= k <= ts@.len(),
        ts@.len() == vs@.len(),
        forall|m: int| 0 <= m < k ==> coerce_spec(#[trigger] ts@[m], vs@[m]) is Ok,
    ensures
        coerce_tuple_spec(ts, vs, 0) == coerce_tuple_spec(ts, vs, k),
    decreases k,
{
    if k > 0 {
        lemma_tuple_prefix(ts, vs, k - 1);
    }
}

proof fn lemma_named_prefix(tw: Typing, vw: Value, ns: Vec<(String, Typing)>, vs: Vec<Value>, k: int)
    requires
        0 <= k <= ns@.len(),
        ns@.len() == vs@.len(),
        forall|m: int| 0 <= m < k ==> named_entry_ok(#[trigger] ns@[m], vs@[m]),
    ensures
        coerce_named_spec(tw, vw, ns, vs, 0) == coerce_named_spec(tw, vw, ns, vs, k),
    decreases k,
{
    if k > 0 {
        lemma_named_prefix(tw, vw, ns, vs, k - 1);
    }
}

impl Typing {
    /// Check `v` against this type by reference; success means coercion
    /// returns `v` unchanged.
    #[verifier::loop_isolation(false)]
    fn coerce_ref(&self, v: &Value) -> (r: Result<(), TypingError>)
        ensures
            r matches Ok(_) ==> coerce_spec(*self, *v) == Ok::<Value, TypingError>(*v),
            r matches Err(e) ==> coerce_spec(*self, *v) matches Err(se) && err_eq(e, se),
        decreases self,
    {
        match self {
            Typing::Any => {
                return Ok(());
            }
            _ => {}
        }
        if let Value::Null = v {
            return match self {
                Typing::Nullable(_) => Ok(()),
                _ => Err(TypingError::NotNullViolated(self.clone())),
            };
        }
        match self {
            Typing::Any => Ok(()),
            Typing::Nullable(t1) => (**t1).coerce_ref(v),
            Typing::Bool => match v {
                Value::Bool(_) => Ok(()),
                _ => Err(TypingError::TypeMismatch(self.clone(), v.clone())),
            },
            Typing::Int => match v {
                Value::Int(_) => Ok(()),
                _ => Err(TypingError::TypeMismatch(self.clone(), v.clone())),
            },
            Typing::Float => match v {
                Value::Float(_) => Ok(()),
                _ => Err(TypingError::TypeMismatch(self.clone(), v.clone())),
            },
            Typing::Text => match v {
                Value::Text(_) => Ok(()),
                _ => Err(TypingError::TypeMismatch(self.clone(), v.clone())),
            },
            Typing::Uuid => match v {
                Value::Uuid(_) => Ok(()),
                _ => Err(TypingError::TypeMismatch(self.clone(), v.clone())),
            },
            Typing::Homogeneous(t1) => match v {
                Value::List(vs) => {
                    let mut k: usize = 0;
                    while k < vs.len()
                        invariant
                            k <= vs@.len(),
                            forall|m: int|
                                0 <= m < k ==> coerce_spec(**t1, #[trigger] vs@[m]) is Ok,
                        decreases vs@.len() - k,
                    {
                        proof {
                            assert(decreases_to!(Typing::Homogeneous(*t1) => *t1));
                        }
                        match (**t1).coerce_ref(&vs[k]) {
                            Ok(_) => {
                                k += 1;
                            }
                            Err(e) => {
                                proof {
                                    lemma_list_prefix(**t1, *vs, k as int);
                                }
                                return Err(e);
                            }
                        }
                    }
                    proof {
                        lemma_list_prefix(**t1, *vs, vs@.len() as int);
                    }
                    Ok(())
                }
                _ => Err(TypingError::TypeMismatch(self.clone(), v.clone())),
            },
            Typing::UnnamedTuple(ts) => match v {
                Value::List(vs) => {
                    if vs.len() != ts.len() {
                        return Err(TypingError::TypeMismatch(self.clone(), v.clone()));
                    }
                    let mut k: usize = 0;
                    while k < ts.len()
                        invariant
                            k <= ts@.len(),
                            forall|m: int|
                                0 <= m < k ==> coerce_spec(#[trigger] ts@[m], vs@[m]) is Ok,
                        decreases ts@.len() - k,
                    {
                        proof {
                            assert(decreases_to!(Typing::UnnamedTuple(*ts) => *ts));
                            assert(decreases_to!(*ts => ts@[k as int]));
                        }
                        match ts[k].coerce_ref(&vs[k]) {
                            Ok(_) => {
                                k += 1;
                            }
                            Err(e) => {
                                proof {
                                    lemma_tuple_prefix(*ts, *vs, k as int);
                                }
                                return Err(e);
                            }
                        }
                    }
                    proof {
                        lemma_tuple_prefix(*ts, *vs, ts@.len() as int);
                    }
                    Ok(())
                }
                _ => Err(TypingError::TypeMismatch(self.clone(), v.clone())),
            },
            Typing::NamedTuple(ns) => match v {
                Value::List(vs) => {
                    if vs.len() != ns.len() {
                        return Err(TypingError::TypeMismatch(self.clone(), v.clone()));
                    }
                    let mut k: usize = 0;
                    while k < ns.len()
                        invariant
                            k <= ns@.len(),
                            forall|m: int| 0 <= m < k ==> named_entry_ok(#[trigger] ns@[m], vs@[m]),
                        decreases ns@.len() - k,
                    {
                        let entry_ok: bool;
                        if let Value::List(pair) = &vs[k] {
                            if pair.len() == 2 {
                                if let Value::Text(nm) = &pair[0] {
                                    entry_ok = nm.eq(&ns[k].0);
                                } else {
                                    entry_ok = false;
                                }
                            } else {
                                entry_ok = false;
                            }
                        } else {
                            entry_ok = false;
                        }
                        if !entry_ok {
                            proof {
                                lemma_named_prefix(*self, *v, *ns, *vs, k as int);
                            }
                            return Err(TypingError::TypeMismatch(self.clone(), v.clone()));
                        }
                        if let Value::List(pair) = &vs[k] {
                            proof {
                                assert(decreases_to!(Typing::NamedTuple(*ns) => *ns));
                                assert(decreases_to!(*ns => ns@[k as int]));
                                assert(decreases_to!(ns@[k as int] => ns@[k as int].1));
                            }
                            match ns[k].1.coerce_ref(&pair[1]) {
                                Ok(_) => {
                                    k += 1;
                                }
                                Err(e) => {
                                    proof {
                                        lemma_named_prefix(*self, *v, *ns, *vs, k as int);
                                    }
                                    return Err(e);
                                }
                            }
                        }
                    }
                    proof {
                        lemma_named_prefix(*self, *v, *ns, *vs, ns@.len() as int);
                    }
                    Ok(())
                }
                _ => Err(TypingError::TypeMismatch(self.clone(), v.clone())),
            },
        }
    }

    /// Coerce `v` against this type: accept it unchanged when its shape
    /// agrees with the declaration, and fail with the first typed error
    /// otherwise.
    pub fn coerce(&self, v: Value) -> (r: Result<Value, TypingError>)
        ensures
            (match r {
                Ok(w) => coerce_spec(*self, v) matches Ok(sw) && veq(w, sw),
                Err(e) => coerce_spec(*self, v) matches Err(se) && err_eq(e, se),
            }),
    {
        match self.coerce_ref(&v) {
            Ok(_) => {
                proof {
                    lemma_veq_refl(v);
                }
                Ok(v)
            }
            Err(e) => Err(e),
        }
    }

    /// Accept `v` exactly when it is a boolean; otherwise a mismatch
    /// against this type.
    pub fn coerce_bool(&self, v: Value) -> (r: Result<Value, TypingError>)
        ensures
            v matches Value::Bool(_) ==> r == Ok::<Value, TypingError>(v),
            !(v matches Value::Bool(_)) ==> (r matches Err(e) && err_eq(
                e,
                TypingError::TypeMismatch(*self, v),
            )),
    {
        match v {
            Value::Bool(_) => Ok(v),
            _ => {
                proof {
                    lemma_veq_refl(v);
                }
                Err(TypingError::TypeMismatch(self.clone(), v))
            }
        }
    }

    /// Accept `v` exactly when it is an integer.
    pub fn coerce_int(&self, v: Value) -> (r: Result<Value, TypingError>)
        ensures
            v matches Value::Int(_) ==> r == Ok::<Value, TypingError>(v),
            !(v matches Value::Int(_)) ==> (r matches Err(e) && err_eq(
                e,
                TypingError::TypeMismatch(*self, v),
            )),
    {
        match v {
            Value::Int(_) => Ok(v),
            _ => {
                proof {
                    lemma_veq_refl(v);
                }
                Err(TypingError::TypeMismatch(self.clone(), v))
            }
        }
    }

    /// Accept `v` exactly when it is a float.
    pub fn coerce_float(&self, v: Value) -> (r: Result<Value, TypingError>)
        ensures
            v matches Value::Float(_) ==> r == Ok::<Value, TypingError>(v),
            !(v matches Value::Float(_)) ==> (r matches Err(e) && err_eq(
                e,
                TypingError::TypeMismatch(*self, v),
            )),
    {
        match v {
            Value::Float(_) => Ok(v),
            _ => {
                proof {
                    lemma_veq_refl(v);
                }
                Err(TypingError::TypeMismatch(self.clone(), v))
            }
        }
    }

    /// Accept `v` exactly when it is text.
    pub fn coerce_text(&self, v: Value) -> (r: Result<Value, TypingError>)
        ensures
            v matches Value::Text(_) ==> r == Ok::<Value, TypingError>(v),
            !(v matches Value::Text(_)) ==> (r matches Err(e) && err_eq(
                e,
                TypingError::TypeMismatch(*self, v),
            )),
    {
        match v {
            Value::Text(_) => Ok(v),
            _ => {
                proof {
                    lemma_veq_refl(v);
                }
                Err(TypingError::TypeMismatch(self.clone(), v))
            }
        }
    }

    /// Accept `v` exactly when it is a UUID.
    pub fn coerce_uuid(&self, v: Value) -> (r: Result<Value, TypingError>)
        ensures
            v matches Value::Uuid(_) ==> r == Ok::<Value, TypingError>(v),
            !(v matches Value::Uuid(_)) ==> (r matches Err(e) && err_eq(
                e,
                TypingError::TypeMismatch(*self, v),
            )),
    {
        match v {
            Value::Uuid(_) => Ok(v),
            _ => {
                proof {
                    lemma_veq_refl(v);
                }
                Err(TypingError::TypeMismatch(self.clone(), v))
            }
        }
    }
}

/// A scalar type accepts a value of its own variant unchanged.
pub proof fn lemma_coerce_scalar_match(t: Typing, v: Value)
    requires
        is_scalar(t),
        scalar_matches(t, v),
    ensures
        coerce_spec(t, v) == Ok::<Value, TypingError>(v),
{
}

/// A scalar type rejects a non-null value of any other variant as a
/// mismatch citing that type and value.  Null is the one input left
/// aside: it fails as a null violation instead.
pub proof fn lemma_coerce_scalar_mismatch(t: Typing, v: Value)
    requires
        is_scalar(t),
        !scalar_matches(t, v),
        !(v matches Value::Null),
    ensures
        coerce_spec(t, v) == Err::<Value, TypingError>(TypingError::TypeMismatch(t, v)),
{
}

/// Null against a type that is neither nullable nor `Any` is a null
/// violation citing the declared type.  `Any` is the one type left
/// aside: it accepts everything, null included.
pub proof fn lemma_coerce_null(t: Typing)
    requires
        !(t matches Typing::Nullable(_)),
        !(t matches Typing::Any),
    ensures
        coerce_spec(t, Value::Null) == Err::<Value, TypingError>(TypingError::NotNullViolated(t)),
{
}

/// A nullable type accepts null.
pub proof fn lemma_coerce_nullable_null(bt: Box<Typing>)
    ensures
        coerce_spec(Typing::Nullable(bt), Value::Null) == Ok::<Value, TypingError>(Value::Null),
{
}

/// For a non-null value, a nullable type coerces exactly as its inner
/// type does: the nullability check happens once, and an inner failure
/// cites the unwrapped inner type.
pub proof fn lemma_coerce_nullable_unwraps(bt: Box<Typing>, v: Value)
    requires
        !(v matches Value::Null),
    ensures
        coerce_spec(Typing::Nullable(bt), v) == coerce_spec(*bt, v),
{
}

} // verus!
