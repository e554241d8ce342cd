//! The type algebra: declared attribute types and their canonical text form.

use crate::value::Value;
use crate::value::veq;
use vstd::prelude::*;
use vstd::string::StringExecFns;

verus! {

broadcast use vstd::std_specs::vec::group_vec_axioms;

/// A failure of type parsing or value coercion.
#[derive(Debug, PartialEq, Eq)]
pub enum TypingError {
    /// Null arrived for a type that is not nullable.
    NotNullViolated(Typing),
    /// The value's runtime variant disagrees with the declared type.
    TypeMismatch(Typing, Value),
    /// A bare word in a type expression that names no known simple type.
    UndefinedType(String),
    /// A structural grammar violation: the position it was noticed at and
    /// a description of what was expected there.
    Parse(usize, String),
    /// A malformed tuple-field identifier, at the given position.
    TextParse(usize),
}

/// Structural equivalence of two errors.
pub open spec fn err_eq(a: TypingError, b: TypingError) -> bool {
    match (a, b) {
        (TypingError::NotNullViolated(x), TypingError::NotNullViolated(y)) => teq(x, y),
        (TypingError::TypeMismatch(xt, xv), TypingError::TypeMismatch(yt, yv)) => teq(xt, yt)
            && veq(xv, yv),
        (TypingError::UndefinedType(x), TypingError::UndefinedType(y)) => x@ == y@,
        (TypingError::Parse(xp, xe), TypingError::Parse(yp, ye)) => xp == yp && xe@ == ye@,
        (TypingError::TextParse(x), TypingError::TextParse(y)) => x == y,
        _ => false,
    }
}

/// A declared attribute type: the closed algebra of shapes a stored value
/// may be required to take.  A container variant exclusively owns its
/// nested types; the grammar cannot produce sharing or cycles.
#[derive(Debug, PartialEq, Eq)]
pub enum Typing {
    Any,
    Bool,
    Int,
    Float,
    Text,
    Uuid,
    Nullable(Box<Typing>),
    Homogeneous(Box<Typing>),
    UnnamedTuple(Vec<Typing>),
    NamedTuple(Vec<(String, Typing)>),
}

/// Canonical text of a type: the scalar keywords, `?T`, `[T]`,
/// `(T1,T2,...)`, and `{"name":T,...}` with entries in declaration order.
pub open spec fn disp(t: Typing) -> Seq<char>
    decreases t, 0int,
{
    match t {
        Typing::Any => seq!['A', 'n', 'y'],
        Typing::Bool => seq!['B', 'o', 'o', 'l'],
        Typing::Int => seq!['I', 'n', 't'],
        Typing::Float => seq!['F', 'l', 'o', 'a', 't'],
        Typing::Text => seq!['T', 'e', 'x', 't'],
        Typing::Uuid => seq!['U', 'u', 'i', 'd'],
        Typing::Nullable(t1) => seq!['?'] + disp(*t1),
        Typing::Homogeneous(t1) => seq!['['] + disp(*t1) + seq![']'],
        Typing::UnnamedTuple(ts) => seq!['('] + disp_unnamed(ts, 0) + seq![')'],
        Typing::NamedTuple(ns) => seq!['{'] + disp_named(ns, 0) + seq!['}'],
    }
}

/// Canonical text of the members of an unnamed tuple from position `from`
/// on, joined by commas.
pub open spec fn disp_unnamed(ts: Vec<Typing>, from: int) -> Seq<char>
    decreases ts, ts@.len() - from,
{
    if from < 0 || from >= ts@.len() {
        Seq::empty()
    } else {
        let head = disp(ts@[from]);
        if from + 1 == ts@.len() {
            head
        } else {
            head + seq![','] + disp_unnamed(ts, from + 1)
        }
    }
}

/// Canonical text of the members of a named tuple from position `from`
/// on: `"name":T` entries joined by commas.
pub open spec fn disp_named(ns: Vec<(String, Typing)>, from: int) -> Seq<char>
    decreases ns, ns@.len() - from,
{
    if from < 0 || from >= ns@.len() {
        Seq::empty()
    } else {
        let entry = seq!['"'] + ns@[from].0@ + seq!['"', ':'] + disp(ns@[from].1);
        if from + 1 == ns@.len() {
            entry
        } else {
            entry + seq![','] + disp_named(ns, from + 1)
        }
    }
}

/// Holds of types containing none of the deferred tuple forms.
pub open spec fn tuple_free(t: Typing) -> bool
    decreases t,
{
    match t {
        Typing::Nullable(t1) => tuple_free(*t1),
        Typing::Homogeneous(t1) => tuple_free(*t1),
        Typing::UnnamedTuple(_) => false,
        Typing::NamedTuple(_) => false,
        _ => true,
    }
}

/// Structural equivalence of two types, comparing tuple members
/// position by position and names by their character sequences.
pub open spec fn teq(a: Typing, b: Typing) -> bool
    decreases a,
{
    match (a, b) {
        (Typing::Any, Typing::Any) => true,
        (Typing::Bool, Typing::Bool) => true,
        (Typing::Int, Typing::Int) => true,
        (Typing::Float, Typing::Float) => true,
        (Typing::Text, Typing::Text) => true,
        (Typing::Uuid, Typing::Uuid) => true,
        (Typing::Nullable(x), Typing::Nullable(y)) => teq(*x, *y),
        (Typing::Homogeneous(x), Typing::Homogeneous(y)) => teq(*x, *y),
        (Typing::UnnamedTuple(xs), Typing::UnnamedTuple(ys)) => {
            &&& xs@.len() == ys@.len()
            &&& forall|i: int| 0 <= i < xs@.len() ==> teq(#[trigger] xs@[i], ys@[i])
        },
        (Typing::NamedTuple(xs), Typing::NamedTuple(ys)) => {
            &&& xs@.len() == ys@.len()
            &&& forall|i: int|
                0 <= i < xs@.len() ==> (#[trigger] xs@[i]).0@ == ys@[i].0@ && teq(
                    xs@[i].1,
                    ys@[i].1,
                )
        },
        _ => false,
    }
}

impl Clone for Typing {
    /// A structural copy, equivalent to the original.
    #[verifier::loop_isolation(false)]
    fn clone(&self) -> (res: Self)
        ensures
            teq(res, *self),
        decreases self,
    {
        match self {
            Typing::Any => Typing::Any,
            Typing::Bool => Typing::Bool,
            Typing::Int => Typing::Int,
            Typing::Float => Typing::Float,
            Typing::Text => Typing::Text,
            Typing::Uuid => Typing::Uuid,
            Typing::Nullable(t1) => Typing::Nullable(Box::new((**t1).clone())),
            Typing::Homogeneous(t1) => Typing::Homogeneous(Box::new((**t1).clone())),
            Typing::UnnamedTuple(ts) => {
                let mut out: Vec<Typing> = Vec::new();
                let mut k: usize = 0;
                while k < ts.len()
                    invariant
                        *self == Typing::UnnamedTuple(*ts),
                        k <= ts@.len(),
                        out@.len() == k,
                        forall|i: int| 0 <= i < k ==> teq(#[trigger] out@[i], ts@[i]),
                    decreases ts@.len() - k,
                {
                    proof {
                        assert(decreases_to!(Typing::UnnamedTuple(*ts) => *ts));
                        assert(decreases_to!(*ts => ts@[k as int]));
                    }
                    out.push(ts[k].clone());
                    k += 1;
                }
                Typing::UnnamedTuple(out)
            }
            Typing::NamedTuple(ns) => {
                let mut out: Vec<(String, Typing)> = Vec::new();
                let mut k: usize = 0;
                while k < ns.len()
                    invariant
                        *self == Typing::NamedTuple(*ns),
                        k <= ns@.len(),
                        out@.len() == k,
                        forall|i: int|
                            0 <= i < k ==> (#[trigger] out@[i]).0@ == ns@[i].0@ && teq(
                                out@[i].1,
                                ns@[i].1,
                            ),
                    decreases ns@.len() - k,
                {
                    proof {
                        assert(decreases_to!(Typing::NamedTuple(*ns) => *ns));
                        assert(decreases_to!(*ns => ns@[k as int]));
                        assert(decreases_to!(ns@[k as int] => ns@[k as int].1));
                    }
                    let name = ns[k].0.clone();
                    let typ = ns[k].1.clone();
                    out.push((name, typ));
                    k += 1;
                }
                Typing::NamedTuple(out)
            }
        }
    }
}

impl Typing {
    /// Render this type in its canonical text form.
    #[verifier::loop_isolation(false)]
    pub fn to_text(&self) -> (out: String)
        ensures
            out@ == disp(*self),
        decreases self,
    {
        match self {
            Typing::Any => {
                let s = String::from_str("Any");
                proof {
                    reveal_strlit("Any");
                    assert(s@ =~= disp(*self));
                }
                s
            }
            Typing::Bool => {
                let s = String::from_str("Bool");
                proof {
                    reveal_strlit("Bool");
                    assert(s@ =~= disp(*self));
                }
                s
            }
            Typing::Int => {
                let s = String::from_str("Int");
                proof {
                    reveal_strlit("Int");
                    assert(s@ =~= disp(*self));
                }
                s
            }
            Typing::Float => {
                let s = String::from_str("Float");
                proof {
                    reveal_strlit("Float");
                    assert(s@ =~= disp(*self));
                }
                s
            }
            Typing::Text => {
                let s = String::from_str("Text");
                proof {
                    reveal_strlit("Text");
                    assert(s@ =~= disp(*self));
                }
                s
            }
            Typing::Uuid => {
                let s = String::from_str("Uuid");
                proof {
                    reveal_strlit("Uuid");
                    assert(s@ =~= disp(*self));
                }
                s
            }
            Typing::Nullable(t1) => {
                let mut s = String::from_str("?");
                let inner = (**t1).to_text();
                s.append(inner.as_str());
                proof {
                    reveal_strlit("?");
                    assert(s@ =~= disp(*self));
                }
                s
            }
            Typing::Homogeneous(t1) => {
                let mut s = String::from_str("[");
                let inner = (**t1).to_text();
                s.append(inner.as_str());
                s.append("]");
                proof {
                    reveal_strlit("[");
                    reveal_strlit("]");
                    assert(s@ =~= disp(*self));
                }
                s
            }
            Typing::UnnamedTuple(ts) => {
                let mut s = String::from_str("(");
                proof {
                    reveal_strlit("(");
                    reveal_strlit(",");
                }
                let mut k: usize = 0;
                while k < ts.len()
                    invariant
                        *self == Typing::UnnamedTuple(*ts),
                        k <= ts@.len(),
                        "("@ =~= seq!['('],
                        ","@ =~= seq![','],
                        k == 0 ==> s@ == seq!['('],
                        0 < k < ts@.len() ==> s@ + seq![','] + disp_unnamed(*ts, k as int)
                            == seq!['('] + disp_unnamed(*ts, 0),
                        k == ts@.len() && k > 0 ==> s@ == seq!['('] + disp_unnamed(*ts, 0),
                    decreases ts@.len() - k,
                {
                    if k > 0 {
                        s.append(",");
                    }
                    proof {
                        assert(decreases_to!(Typing::UnnamedTuple(*ts) => *ts));
                        assert(decreases_to!(*ts => ts@[k as int]));
                    }
                    let piece = ts[k].to_text();
                    s.append(piece.as_str());
                    k += 1;
                    proof {
                        if k < ts@.len() {
                            assert(s@ + seq![','] + disp_unnamed(*ts, k as int) =~= seq!['(']
                                + disp_unnamed(*ts, 0));
                        } else {
                            assert(s@ =~= seq!['('] + disp_unnamed(*ts, 0));
                        }
                    }
                }
                s.append(")");
                proof {
                    reveal_strlit(")");
                    assert(")"@ =~= seq![')']);
                    if ts@.len() == 0 {
                        assert(disp_unnamed(*ts, 0) == Seq::<char>::empty());
                        assert(s@ =~= seq!['('] + disp_unnamed(*ts, 0) + seq![')']);
                    } else {
                        assert(s@ =~= seq!['('] + disp_unnamed(*ts, 0) + seq![')']);
                    }
                    assert(s@ =~= disp(*self));
                }
                s
            }
            Typing::NamedTuple(ns) => {
                let mut s = String::from_str("{");
                proof {
                    reveal_strlit("{");
                    reveal_strlit(",");
                    reveal_strlit("\"");
                    reveal_strlit("\":");
                }
                let mut k: usize = 0;
                while k < ns.len()
                    invariant
                        *self == Typing::NamedTuple(*ns),
                        k <= ns@.len(),
                        "{"@ =~= seq!['{'],
                        ","@ =~= seq![','],
                        "\""@ =~= seq!['"'],
                        "\":"@ =~= seq!['"', ':'],
                        k == 0 ==> s@ == seq!['{'],
                        0 < k < ns@.len() ==> s@ + seq![','] + disp_named(*ns, k as int)
                            == seq!['{'] + disp_named(*ns, 0),
                        k == ns@.len() && k > 0 ==> s@ == seq!['{'] + disp_named(*ns, 0),
                    decreases ns@.len() - k,
                {
                    if k > 0 {
                        s.append(",");
                    }
                    s.append("\"");
                    s.append(ns[k].0.as_str());
                    s.append("\":");
                    proof {
                        assert(decreases_to!(Typing::NamedTuple(*ns) => *ns));
                        assert(decreases_to!(*ns => ns@[k as int]));
                        assert(decreases_to!(ns@[k as int] => ns@[k as int].1));
                    }
                    let piece = ns[k].1.to_text();
                    s.append(piece.as_str());
                    k += 1;
                    proof {
                        if k < ns@.len() {
                            assert(s@ + seq![','] + disp_named(*ns, k as int) =~= seq!['{']
                                + disp_named(*ns, 0));
                        } else {
                            assert(s@ =~= seq!['{'] + disp_named(*ns, 0));
                        }
                    }
                }
                s.append("}");
                proof {
                    reveal_strlit("}");
                    assert("}"@ =~= seq!['}']);
                    if ns@.len() == 0 {
                        assert(disp_named(*ns, 0) == Seq::<char>::empty());
                        assert(s@ =~= seq!['{'] + disp_named(*ns, 0) + seq!['}']);
                    } else {
                        assert(s@ =~= seq!['{'] + disp_named(*ns, 0) + seq!['}']);
                    }
                    assert(s@ =~= disp(*self));
                }
                s
            }
        }
    }
}

} // verus!
