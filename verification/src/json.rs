//! The serialization boundary: a structured-text value model and the
//! bidirectional mapping between it and the storage-facing value model.
//!
//! Numbers carry how the boundary reads them: as a signed integer, as an
//! unsigned integer beyond the signed range (produced when identifiers
//! are exported), as a floating-point bit pattern, or as lossless text
//! when no numeric form represents them.

use crate::id::EntityId;
use crate::keyword::Keyword;
use vstd::prelude::*;

verus! {

broadcast use vstd::std_specs::vec::group_vec_axioms;

/// A structured-text value, as exchanged with the outside format.
#[derive(Debug, PartialEq, Eq)]
pub enum JsonVal {
    Null,
    Bool(bool),
    NumInt(i64),
    NumUint(u64),
    NumFloat(u64),
    NumText(String),
    Str(String),
    Arr(Vec<JsonVal>),
    Obj(Vec<(String, JsonVal)>),
}

/// A storage-facing value: the runtime value model plus the forms the
/// storage and index layers need.  Floats are carried as IEEE 754 bit
/// patterns and UUIDs as their 128-bit integer form.
#[derive(Debug, PartialEq, Eq)]
pub enum DataValue {
    Null,
    Bool(bool),
    Int(i64),
    Float(u64),
    String(String),
    Uuid(u128),
    Bytes(Vec<u8>),
    List(Vec<DataValue>),
    DescVal(Box<DataValue>),
    Bottom,
    EnId(EntityId),
    Keyword(Keyword),
    Timestamp(i64),
}

/// Structural equivalence of structured-text values.
pub open spec fn jveq(a: JsonVal, b: JsonVal) -> bool
    decreases a,
{
    match (a, b) {
        (JsonVal::Null, JsonVal::Null) => true,
        (JsonVal::Bool(x), JsonVal::Bool(y)) => x == y,
        (JsonVal::NumInt(x), JsonVal::NumInt(y)) => x == y,
        (JsonVal::NumUint(x), JsonVal::NumUint(y)) => x == y,
        (JsonVal::NumFloat(x), JsonVal::NumFloat(y)) => x == y,
        (JsonVal::NumText(x), JsonVal::NumText(y)) => x@ == y@,
        (JsonVal::Str(x), JsonVal::Str(y)) => x@ == y@,
        (JsonVal::Arr(xs), JsonVal::Arr(ys)) => {
            &&& xs@.len() == ys@.len()
            &&& forall|i: int| 0 <= i < xs@.len() ==> jveq(#[trigger] xs@[i], ys@[i])
        },
        (JsonVal::Obj(xs), JsonVal::Obj(ys)) => {
            &&& xs@.len() == ys@.len()
            &&& forall|i: int|
                0 <= i < xs@.len() ==> (#[trigger] xs@[i]).0@ == ys@[i].0@ && jveq(
                    xs@[i].1,
                    ys@[i].1,
                )
        },
        _ => false,
    }
}

/// Structural equivalence of storage-facing values.
pub open spec fn dveq(a: DataValue, b: DataValue) -> bool
    decreases a,
{
    match (a, b) {
        (DataValue::Null, DataValue::Null) => true,
        (DataValue::Bool(x), DataValue::Bool(y)) => x == y,
        (DataValue::Int(x), DataValue::Int(y)) => x == y,
        (DataValue::Float(x), DataValue::Float(y)) => x == y,
        (DataValue::String(x), DataValue::String(y)) => x@ == y@,
        (DataValue::Uuid(x), DataValue::Uuid(y)) => x == y,
        (DataValue::Bytes(x), DataValue::Bytes(y)) => x@ == y@,
        (DataValue::List(xs), DataValue::List(ys)) => {
            &&& xs@.len() == ys@.len()
            &&& forall|i: int| 0 <= i < xs@.len() ==> dveq(#[trigger] xs@[i], ys@[i])
        },
        (DataValue::DescVal(x), DataValue::DescVal(y)) => dveq(*x, *y),
        (DataValue::Bottom, DataValue::Bottom) => true,
        (DataValue::EnId(x), DataValue::EnId(y)) => x == y,
        (DataValue::Keyword(x), DataValue::Keyword(y)) => x@ == y@,
        (DataValue::Timestamp(x), DataValue::Timestamp(y)) => x == y,
        _ => false,
    }
}

impl Clone for JsonVal {
    /// A structural copy, equivalent to the original.
    #[verifier::loop_isolation(false)]
    fn clone(&self) -> (res: Self)
        ensures
            jveq(res, *self),
        decreases self,
    {
        match self {
            JsonVal::Null => JsonVal::Null,
            JsonVal::Bool(b) => JsonVal::Bool(*b),
            JsonVal::NumInt(i) => JsonVal::NumInt(*i),
            JsonVal::NumUint(u) => JsonVal::NumUint(*u),
            JsonVal::NumFloat(f) => JsonVal::NumFloat(*f),
            JsonVal::NumText(s) => JsonVal::NumText(s.clone()),
            JsonVal::Str(s) => JsonVal::Str(s.clone()),
            JsonVal::Arr(xs) => {
                let mut out: Vec<JsonVal> = Vec::new();
                let mut k: usize = 0;
                while k < xs.len()
                    invariant
                        k <= xs@.len(),
                        out@.len() == k,
                        forall|i: int| 0 <= i < k ==> jveq(#[trigger] out@[i], xs@[i]),
                    decreases xs@.len() - k,
                {
                    proof {
                        assert(decreases_to!(JsonVal::Arr(*xs) => *xs));
                        assert(decreases_to!(*xs => xs@[k as int]));
                    }
                    out.push(xs[k].clone());
                    k += 1;
                }
                JsonVal::Arr(out)
            }
            JsonVal::Obj(xs) => {
                let mut out: Vec<(String, JsonVal)> = Vec::new();
                let mut k: usize = 0;
                while k < xs.len()
                    invariant
                        k <= xs@.len(),
                        out@.len() == k,
                        forall|i: int|
                            0 <= i < k ==> (#[trigger] out@[i]).0@ == xs@[i].0@ && jveq(
                                out@[i].1,
                                xs@[i].1,
                            ),
                    decreases xs@.len() - k,
                {
                    proof {
                        assert(decreases_to!(JsonVal::Obj(*xs) => *xs));
                        assert(decreases_to!(*xs => xs@[k as int]));
                        assert(decreases_to!(xs@[k as int] => xs@[k as int].1));
                    }
                    let key = xs[k].0.clone();
                    let val = xs[k].1.clone();
                    out.push((key, val));
                    k += 1;
                }
                JsonVal::Obj(out)
            }
        }
    }
}

/// The lower-case hexadecimal digit for `d` (taken modulo 16).
pub open spec fn hexd(d: nat) -> char {
    if d == 0 {
        '0'
    } else if d == 1 {
        '1'
    } else if d == 2 {
        '2'
    } else if d == 3 {
        '3'
    } else if d == 4 {
        '4'
    } else if d == 5 {
        '5'
    } else if d == 6 {
        '6'
    } else if d == 7 {
        '7'
    } else if d == 8 {
        '8'
    } else if d == 9 {
        '9'
    } else if d == 10 {
        'a'
    } else if d == 11 {
        'b'
    } else if d == 12 {
        'c'
    } else if d == 13 {
        'd'
    } else if d == 14 {
        'e'
    } else {
        'f'
    }
}

/// `n` written as exactly `w` lower-case hexadecimal digits (the low
/// `w` digits, most significant first).
pub open spec fn hex_w(n: nat, w: nat) -> Seq<char>
    decreases w,
{
    if w == 0 {
        Seq::empty()
    } else {
        hex_w(n / 16, (w - 1) as nat) + seq![hexd(n % 16)]
    }
}

/// The decimal digit character for `d` (taken modulo 10).
pub open spec fn decd(d: nat) -> char {
    hexd(d % 10)
}

/// `n` written in decimal, most significant digit first, no leading
/// zeros.
pub open spec fn dec_nat(n: nat) -> Seq<char>
    decreases n,
{
    if n < 10 {
        seq![decd(n)]
    } else {
        dec_nat(n / 10) + seq![decd(n % 10)]
    }
}

/// The canonical UUID text of `u`: five dash-separated groups of 8, 4,
/// 4, 4 and 12 lower-case hexadecimal digits.
pub open spec fn uuid_text(u: u128) -> Seq<char> {
    let n = u as nat;
    hex_w(n / 0x1000000000000000000000000, 8) + seq!['-'] + hex_w((n / 0x100000000000000000000)
        % 0x10000, 4) + seq!['-'] + hex_w((n / 0x10000000000000000) % 0x10000, 4) + seq!['-']
        + hex_w((n / 0x1000000000000) % 0x10000, 4) + seq!['-'] + hex_w(n % 0x1000000000000, 12)
}

/// What base64 encoding of a byte sequence yields.  Relied upon only
/// through the encoder below: the result is a function of the bytes
/// alone.
pub uninterp spec fn b64_of(bytes: Seq<u8>) -> Seq<char>;

/// Relies on base64's `encode`: the standard alphabet with padding,
/// producing four characters for every three bytes begun, as a function
/// of the input bytes alone.
#[verifier::external_body]
fn base64_encode(b: &Vec<u8>) -> (r: String)
    ensures
        r@ == b64_of(b@),
        r@.len() == 4 * ((b@.len() + 2) / 3),
{
    base64::encode(b)
}

/// Relies on String's collection of a character iterator: the result
/// holds exactly the given characters.
#[verifier::external_body]
fn string_of_chars(cs: Vec<char>) -> (r: String)
    ensures
        r@ == cs@,
{
    cs.into_iter().collect()
}

/// The digit character for a value below 16.
fn hexd_exec(d: u128) -> (c: char)
    requires
        d < 16,
    ensures
        c == hexd(d as nat),
{
    if d == 0 {
        '0'
    } else if d == 1 {
        '1'
    } else if d == 2 {
        '2'
    } else if d == 3 {
        '3'
    } else if d == 4 {
        '4'
    } else if d == 5 {
        '5'
    } else if d == 6 {
        '6'
    } else if d == 7 {
        '7'
    } else if d == 8 {
        '8'
    } else if d == 9 {
        '9'
    } else if d == 10 {
        'a'
    } else if d == 11 {
        'b'
    } else if d == 12 {
        'c'
    } else if d == 13 {
        'd'
    } else if d == 14 {
        'e'
    } else {
        'f'
    }
}

/// Write `n` as exactly `w` lower-case hexadecimal digits.
fn hex_w_exec(n: u128, w: usize) -> (r: Vec<char>)
    ensures
        r@ == hex_w(n as nat, w as nat),
    decreases w,
{
    if w == 0 {
        let r: Vec<char> = Vec::new();
        proof {
            assert(r@ =~= hex_w(n as nat, 0));
        }
        r
    } else {
        let mut r = hex_w_exec(n / 16, w - 1);
        r.push(hexd_exec(n % 16));
        proof {
            assert(r@ =~= hex_w(n as nat, w as nat));
        }
        r
    }
}

/// Write `n` in decimal.
fn dec_exec(n: u64) -> (r: Vec<char>)
    ensures
        r@ == dec_nat(n as nat),
    decreases n,
{
    if n < 10 {
        let mut r: Vec<char> = Vec::new();
        r.push(hexd_exec((n % 10) as u128));
        proof {
            assert(r@ =~= dec_nat(n as nat));
        }
        r
    } else {
        let mut r = dec_exec(n / 10);
        r.push(hexd_exec((n % 10) as u128));
        proof {
            assert(r@ =~= dec_nat(n as nat));
        }
        r
    }
}

/// How an incoming structured-text value reads as a storage-facing
/// value: null, booleans, numbers and strings map to their own
/// variants; a number beyond every numeric form falls back to lossless
/// text; arrays map member by member; an object maps to a list of
/// two-member `[key, value]` lists, never to a map -- the asymmetry is
/// deliberate, matching the fact model.
pub open spec fn import_rel(j: JsonVal, d: DataValue) -> bool
    decreases j, 0int,
{
    match j {
        JsonVal::Null => d matches DataValue::Null,
        JsonVal::Bool(b) => d matches DataValue::Bool(b2) && b2 == b,
        JsonVal::NumInt(i) => d matches DataValue::Int(i2) && i2 == i,
        JsonVal::NumUint(u) => if u <= i64::MAX as u64 {
            d matches DataValue::Int(i2) && i2 == u as i64
        } else {
            d matches DataValue::String(s) && s@ == dec_nat(u as nat)
        },
        JsonVal::NumFloat(f) => d matches DataValue::Float(f2) && f2 == f,
        JsonVal::NumText(s) => d matches DataValue::String(s2) && s2@ == s@,
        JsonVal::Str(s) => d matches DataValue::String(s2) && s2@ == s@,
        JsonVal::Arr(a) => d matches DataValue::List(l) && a@.len() == l@.len() && (forall|i: int|
            0 <= i < a@.len() ==> import_rel(#[trigger] a@[i], l@[i])),
        JsonVal::Obj(o) => d matches DataValue::List(l) && o@.len() == l@.len() && (forall|i: int|
            0 <= i < o@.len() ==> obj_pair_rel((#[trigger] o@[i]).0@, o@[i].1, l@[i])),
    }
}

/// One imported object entry: a two-member `[key, value]` list whose
/// key is the entry's name and whose value is the entry's import.
pub open spec fn obj_pair_rel(key: Seq<char>, jv: JsonVal, d: DataValue) -> bool
    decreases jv, 1int,
{
    match d {
        DataValue::List(pair) => {
            &&& pair@.len() == 2
            &&& match pair@[0] {
                DataValue::String(k2) => k2@ == key,
                _ => false,
            }
            &&& import_rel(jv, pair@[1])
        },
        _ => false,
    }
}

/// How a storage-facing value is written out: scalars to their own
/// forms, a UUID to its canonical text, bytes to base64 text, the
/// descending-order wrapper transparently, the bottom sentinel to null,
/// identifiers and timestamps to numbers, keywords to their text.
pub open spec fn export_rel(d: DataValue, j: JsonVal) -> bool
    decreases d,
{
    match d {
        DataValue::Null => j matches JsonVal::Null,
        DataValue::Bool(b) => j matches JsonVal::Bool(b2) && b2 == b,
        DataValue::Int(i) => j matches JsonVal::NumInt(i2) && i2 == i,
        DataValue::Float(f) => j matches JsonVal::NumFloat(f2) && f2 == f,
        DataValue::String(s) => j matches JsonVal::Str(s2) && s2@ == s@,
        DataValue::Uuid(u) => j matches JsonVal::Str(s) && s@ == uuid_text(u),
        DataValue::Bytes(b) => j matches JsonVal::Str(s) && s@ == b64_of(b@),
        DataValue::List(l) => j matches JsonVal::Arr(a) && l@.len() == a@.len() && (forall|i: int|
            0 <= i < l@.len() ==> export_rel(#[trigger] l@[i], a@[i])),
        DataValue::DescVal(inner) => export_rel(*inner, j),
        DataValue::Bottom => j matches JsonVal::Null,
        DataValue::EnId(id) => j matches JsonVal::NumUint(u) && u == id.0,
        DataValue::Keyword(kw) => j matches JsonVal::Str(s) && s@ == kw@,
        DataValue::Timestamp(ts) => j matches JsonVal::NumInt(i) && i == ts,
    }
}

impl DataValue {
    /// Read a structured-text value in.
    #[verifier::loop_isolation(false)]
    pub fn from_json(j: &JsonVal) -> (d: DataValue)
        ensures
            import_rel(*j, d),
        decreases j,
    {
        match j {
            JsonVal::Null => DataValue::Null,
            JsonVal::Bool(b) => DataValue::Bool(*b),
            JsonVal::NumInt(i) => DataValue::Int(*i),
            JsonVal::NumUint(u) => {
                if *u <= i64::MAX as u64 {
                    DataValue::Int(*u as i64)
                } else {
                    DataValue::String(string_of_chars(dec_exec(*u)))
                }
            }
            JsonVal::NumFloat(f) => DataValue::Float(*f),
            JsonVal::NumText(s) => DataValue::String(s.clone()),
            JsonVal::Str(s) => DataValue::String(s.clone()),
            JsonVal::Arr(a) => {
                let mut out: Vec<DataValue> = Vec::new();
                let mut k: usize = 0;
                while k < a.len()
                    invariant
                        k <= a@.len(),
                        out@.len() == k,
                        forall|i: int| 0 <= i < k ==> import_rel(#[trigger] a@[i], out@[i]),
                    decreases a@.len() - k,
                {
                    proof {
                        assert(decreases_to!(JsonVal::Arr(*a) => *a));
                        assert(decreases_to!(*a => a@[k as int]));
                    }
                    out.push(DataValue::from_json(&a[k]));
                    k += 1;
                }
                DataValue::List(out)
            }
            JsonVal::Obj(o) => {
                let mut out: Vec<DataValue> = Vec::new();
                let mut k: usize = 0;
                while k < o.len()
                    invariant
                        k <= o@.len(),
                        out@.len() == k,
                        forall|i: int|
                            0 <= i < k ==> obj_pair_rel((#[trigger] o@[i]).0@, o@[i].1, out@[i]),
                    decreases o@.len() - k,
                {
                    proof {
                        assert(decreases_to!(JsonVal::Obj(*o) => *o));
                        assert(decreases_to!(*o => o@[k as int]));
                        assert(decreases_to!(o@[k as int] => o@[k as int].1));
                    }
                    let key = o[k].0.clone();
                    let val = DataValue::from_json(&o[k].1);
                    let mut pair: Vec<DataValue> = Vec::new();
                    pair.push(DataValue::String(key));
                    pair.push(val);
                    proof {
                        assert(obj_pair_rel(o@[k as int].0@, o@[k as int].1, DataValue::List(
                            pair,
                        )));
                    }
                    out.push(DataValue::List(pair));
                    k += 1;
                }
                DataValue::List(out)
            }
        }
    }

    /// Write this value out as a structured-text value.
    #[verifier::loop_isolation(false)]
    pub fn to_json(&self) -> (j: JsonVal)
        ensures
            export_rel(*self, j),
        decreases self,
    {
        match self {
            DataValue::Null => JsonVal::Null,
            DataValue::Bool(b) => JsonVal::Bool(*b),
            DataValue::Int(i) => JsonVal::NumInt(*i),
            DataValue::Float(f) => JsonVal::NumFloat(*f),
            DataValue::String(s) => JsonVal::Str(s.clone()),
            DataValue::Uuid(u) => {
                let n = *u;
                let mut cs = hex_w_exec(n / 0x1000000000000000000000000, 8);
                cs.push('-');
                let mut g2 = hex_w_exec((n / 0x100000000000000000000) % 0x10000, 4);
                cs.append(&mut g2);
                cs.push('-');
                let mut g3 = hex_w_exec((n / 0x10000000000000000) % 0x10000, 4);
                cs.append(&mut g3);
                cs.push('-');
                let mut g4 = hex_w_exec((n / 0x1000000000000) % 0x10000, 4);
                cs.append(&mut g4);
                cs.push('-');
                let mut g5 = hex_w_exec(n % 0x1000000000000, 12);
                cs.append(&mut g5);
                proof {
                    assert(cs@ =~= uuid_text(*u));
                }
                JsonVal::Str(string_of_chars(cs))
            }
            DataValue::Bytes(b) => JsonVal::Str(base64_encode(b)),
            DataValue::List(l) => {
                let mut out: Vec<JsonVal> = Vec::new();
                let mut k: usize = 0;
                while k < l.len()
                    invariant
                        k <= l@.len(),
                        out@.len() == k,
                        forall|i: int| 0 <= i < k ==> export_rel(#[trigger] l@[i], out@[i]),
                    decreases l@.len() - k,
                {
                    proof {
                        assert(decreases_to!(DataValue::List(*l) => *l));
                        assert(decreases_to!(*l => l@[k as int]));
                    }
                    out.push(l[k].to_json());
                    k += 1;
                }
                JsonVal::Arr(out)
            }
            DataValue::DescVal(inner) => (**inner).to_json(),
            DataValue::Bottom => JsonVal::Null,
            DataValue::EnId(id) => JsonVal::NumUint(id.0),
            DataValue::Keyword(kw) => JsonVal::Str(kw.to_text()),
            DataValue::Timestamp(ts) => JsonVal::NumInt(*ts),
        }
    }
}

/// Storage-facing values that survive the round trip unchanged: the
/// plain scalar forms and lists of them.
pub open spec fn plain_data(d: DataValue) -> bool
    decreases d,
{
    match d {
        DataValue::Null => true,
        DataValue::Bool(_) => true,
        DataValue::Int(_) => true,
        DataValue::Float(_) => true,
        DataValue::String(_) => true,
        DataValue::List(l) => forall|i: int| 0 <= i < l@.len() ==> plain_data(#[trigger] l@[i]),
        _ => false,
    }
}

/// Structured-text values that survive the reverse round trip
/// unchanged: everything but objects, unsigned numbers beyond the
/// signed range, and textual number fallbacks.
pub open spec fn plain_json(j: JsonVal) -> bool
    decreases j,
{
    match j {
        JsonVal::Null => true,
        JsonVal::Bool(_) => true,
        JsonVal::NumInt(_) => true,
        JsonVal::NumFloat(_) => true,
        JsonVal::Str(_) => true,
        JsonVal::Arr(a) => forall|i: int| 0 <= i < a@.len() ==> plain_json(#[trigger] a@[i]),
        _ => false,
    }
}

/// Round trip out and back: exporting a plain storage-facing value and
/// importing the result reproduces the value.  The excluded variants
/// change form by design: UUIDs, bytes and keywords export as text,
/// identifiers and timestamps as bare numbers, the descending wrapper
/// and the bottom sentinel are flattened.
pub proof fn lemma_export_then_import(d: DataValue, j: JsonVal, d2: DataValue)
    requires
        plain_data(d),
        export_rel(d, j),
        import_rel(j, d2),
    ensures
        dveq(d2, d),
    decreases d,
{
    match d {
        DataValue::List(l) => {
            let a = j->Arr_0;
            let l2 = d2->List_0;
            assert forall|i: int| 0 <= i < l2@.len() implies dveq(#[trigger] l2@[i], l@[i]) by {
                lemma_export_then_import(l@[i], a@[i], l2@[i]);
            }
        }
        _ => {}
    }
}

/// Round trip in and back out: importing a structured-text value that
/// is neither an object nor a number fallback, then exporting the
/// result, reproduces the value.  Objects import as lists of pairs and
/// stay lists on export: that asymmetry is one-directional by design.
pub proof fn lemma_import_then_export(j: JsonVal, d: DataValue, j2: JsonVal)
    requires
        plain_json(j),
        import_rel(j, d),
        export_rel(d, j2),
    ensures
        jveq(j2, j),
    decreases j,
{
    match j {
        JsonVal::Arr(a) => {
            let l = d->List_0;
            let a2 = j2->Arr_0;
            assert forall|i: int| 0 <= i < a2@.len() implies jveq(#[trigger] a2@[i], a@[i]) by {
                lemma_import_then_export(a@[i], l@[i], a2@[i]);
            }
        }
        _ => {}
    }
}

} // verus!
