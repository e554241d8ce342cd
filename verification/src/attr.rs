//! Attribute schema: the structured record declaring one named, typed
//! slot, built from and rendered to an external definition.

use crate::id::AttrId;
use crate::id::EntityId;
use crate::id::TxId;
use crate::json::JsonVal;
use crate::json::jveq;
use crate::keyword::Keyword;
use crate::keyword::reserved_text;
use crate::parse::can_parse;
use crate::parse::keyword_of;
use crate::parse::str_eq;
use crate::parse::word_char;
use crate::parse::word_end;
use crate::typing::Typing;
use crate::typing::TypingError;
use crate::typing::disp;
use crate::typing::tuple_free;
use vstd::prelude::*;

verus! {

broadcast use vstd::std_specs::vec::group_vec_axioms;

/// Whether an attribute holds one value or many values per entity.
#[derive(Debug, Clone, Copy, PartialEq, Eq, Structural)]
pub enum AttributeCardinality {
    One,
    Many,
}

/// How an attribute's values are indexed.
#[derive(Debug, Clone, Copy, PartialEq, Eq, Structural)]
pub enum AttributeIndex {
    NoIndex,
    Indexed,
    Unique,
    Identity,
}

/// The kinds of identifier a definition may fail to supply.
#[derive(Debug, Clone, Copy, PartialEq, Eq, Structural)]
pub enum IdKind {
    Attr,
    Entity,
    Tx,
}

/// A failure to build a value of the schema model from an external
/// definition.  Every variant carries the offending field or value, so
/// failures are diagnosable from the error alone.
#[derive(Debug, PartialEq, Eq)]
pub enum ConvError {
    /// The definition is not an object.
    NotAnObject(JsonVal),
    /// A required field is absent: its name and the whole definition.
    MissingField(String, JsonVal),
    /// A field has the wrong shape: its name and the whole definition.
    BadField(String, JsonVal),
    /// The keyword names a reserved system slot.
    ReservedKeyword(String),
    /// An unrecognized cardinality spelling.
    BadCardinality(String),
    /// A value that names no recognized indexing mode.
    BadIndex(JsonVal),
    /// A value that is no identifier of the named kind.
    BadId(IdKind, JsonVal),
    /// The type text did not parse.
    Typing(TypingError),
}

/// Schema declaration of one named, typed slot an entity may hold
/// values for.  The id stays 0 until an external registry assigns one;
/// the keyword is never reserved when the record was validated from a
/// definition.
#[derive(Debug, PartialEq, Eq)]
pub struct Attribute {
    pub id: AttrId,
    pub keyword: Keyword,
    pub cardinality: AttributeCardinality,
    pub val_type: Typing,
    pub indexing: AttributeIndex,
    pub with_history: bool,
}

/// The number a structured-text value supplies for an identifier, if
/// any: a non-negative integer form.
pub open spec fn json_as_u64(j: JsonVal) -> Option<u64> {
    match j {
        JsonVal::NumInt(i) => if i >= 0 {
            Some(i as u64)
        } else {
            Option::None
        },
        JsonVal::NumUint(u) => Some(u),
        _ => Option::None,
    }
}

impl AttrId {
    /// Build an attribute id from a definition value: any non-negative
    /// integer number; everything else is rejected, naming the value
    /// and this identifier kind.
    pub fn from_json(j: &JsonVal) -> (r: Result<AttrId, ConvError>)
        ensures
            json_as_u64(*j) matches Some(u) ==> r == Ok::<AttrId, ConvError>(AttrId(u)),
            json_as_u64(*j) is None ==> (r matches Err(e) && e matches ConvError::BadId(k, jj) && k
                == IdKind::Attr && jveq(jj, *j)),
    {
        match id_num(j) {
            Some(u) => Ok(AttrId(u)),
            Option::None => Err(ConvError::BadId(IdKind::Attr, j.clone())),
        }
    }
}

impl EntityId {
    /// Build an entity id from a definition value, as for attribute
    /// ids.
    pub fn from_json(j: &JsonVal) -> (r: Result<EntityId, ConvError>)
        ensures
            json_as_u64(*j) matches Some(u) ==> r == Ok::<EntityId, ConvError>(EntityId(u)),
            json_as_u64(*j) is None ==> (r matches Err(e) && e matches ConvError::BadId(k, jj) && k
                == IdKind::Entity && jveq(jj, *j)),
    {
        match id_num(j) {
            Some(u) => Ok(EntityId(u)),
            Option::None => Err(ConvError::BadId(IdKind::Entity, j.clone())),
        }
    }
}

impl TxId {
    /// Build a transaction id from a definition value, as for attribute
    /// ids.
    pub fn from_json(j: &JsonVal) -> (r: Result<TxId, ConvError>)
        ensures
            json_as_u64(*j) matches Some(u) ==> r == Ok::<TxId, ConvError>(TxId(u)),
            json_as_u64(*j) is None ==> (r matches Err(e) && e matches ConvError::BadId(k, jj) && k
                == IdKind::Tx && jveq(jj, *j)),
    {
        match id_num(j) {
            Some(u) => Ok(TxId(u)),
            Option::None => Err(ConvError::BadId(IdKind::Tx, j.clone())),
        }
    }
}

/// Read the number an identifier field supplies, if any.
fn id_num(j: &JsonVal) -> (r: Option<u64>)
    ensures
        r == json_as_u64(*j),
{
    match j {
        JsonVal::NumInt(i) => if *i >= 0 {
            Some(*i as u64)
        } else {
            Option::None
        },
        JsonVal::NumUint(u) => Some(*u),
        _ => Option::None,
    }
}

/// The canonical spelling of a cardinality.
pub open spec fn card_text(c: AttributeCardinality) -> Seq<char> {
    match c {
        AttributeCardinality::One => "one"@,
        AttributeCardinality::Many => "many"@,
    }
}

/// The cardinality a spelling names, if any.
pub open spec fn card_of_text(s: Seq<char>) -> Option<AttributeCardinality> {
    if s == "one"@ {
        Some(AttributeCardinality::One)
    } else if s == "many"@ {
        Some(AttributeCardinality::Many)
    } else {
        Option::None
    }
}

impl AttributeCardinality {
    /// Read a cardinality from its spelling; any other string is a hard
    /// error naming the received value.
    pub fn from_text(s: &str) -> (r: Result<AttributeCardinality, ConvError>)
        ensures
            card_of_text(s@) matches Some(c) ==> r == Ok::<AttributeCardinality, ConvError>(c),
            card_of_text(s@) is None ==> (r matches Err(e) && e matches ConvError::BadCardinality(
                s2,
            ) && s2@ == s@),
    {
        let w: String = s.to_owned();
        if str_eq(&w, "one") {
            Ok(AttributeCardinality::One)
        } else if str_eq(&w, "many") {
            Ok(AttributeCardinality::Many)
        } else {
            Err(ConvError::BadCardinality(w))
        }
    }

    /// The canonical spelling of this cardinality.
    pub fn to_text(&self) -> (out: String)
        ensures
            out@ == card_text(*self),
    {
        match self {
            AttributeCardinality::One => "one".to_owned(),
            AttributeCardinality::Many => "many".to_owned(),
        }
    }
}

/// The canonical spelling of an indexing mode.
pub open spec fn index_text(x: AttributeIndex) -> Seq<char> {
    match x {
        AttributeIndex::NoIndex => "none"@,
        AttributeIndex::Indexed => "indexed"@,
        AttributeIndex::Unique => "unique"@,
        AttributeIndex::Identity => "identity"@,
    }
}

/// The indexing mode a spelling names, if any.
pub open spec fn index_of_text(s: Seq<char>) -> Option<AttributeIndex> {
    if s == "none"@ {
        Some(AttributeIndex::NoIndex)
    } else if s == "indexed"@ {
        Some(AttributeIndex::Indexed)
    } else if s == "unique"@ {
        Some(AttributeIndex::Unique)
    } else if s == "identity"@ {
        Some(AttributeIndex::Identity)
    } else {
        Option::None
    }
}

/// The indexing mode an `index` field names, if any: a boolean
/// shorthand, or a string naming a mode.
pub open spec fn index_of_json(j: JsonVal) -> Option<AttributeIndex> {
    match j {
        JsonVal::Bool(b) => if b {
            Some(AttributeIndex::Indexed)
        } else {
            Some(AttributeIndex::NoIndex)
        },
        JsonVal::Str(s) => index_of_text(s@),
        _ => Option::None,
    }
}

impl AttributeIndex {
    /// Read an indexing mode from its spelling.
    pub fn from_text(s: &str) -> (r: Option<AttributeIndex>)
        ensures
            r == index_of_text(s@),
    {
        let w: String = s.to_owned();
        if str_eq(&w, "none") {
            Some(AttributeIndex::NoIndex)
        } else if str_eq(&w, "indexed") {
            Some(AttributeIndex::Indexed)
        } else if str_eq(&w, "unique") {
            Some(AttributeIndex::Unique)
        } else if str_eq(&w, "identity") {
            Some(AttributeIndex::Identity)
        } else {
            Option::None
        }
    }

    /// The canonical spelling of this indexing mode.
    pub fn to_text(&self) -> (out: String)
        ensures
            out@ == index_text(*self),
    {
        match self {
            AttributeIndex::NoIndex => "none".to_owned(),
            AttributeIndex::Indexed => "indexed".to_owned(),
            AttributeIndex::Unique => "unique".to_owned(),
            AttributeIndex::Identity => "identity".to_owned(),
        }
    }
}

/// The value at the first entry of `o` named `key`, if any.
pub open spec fn obj_lookup(o: Seq<(String, JsonVal)>, key: Seq<char>) -> Option<JsonVal>
    decreases o.len(),
{
    if o.len() == 0 {
        Option::None
    } else if o[0].0@ == key {
        Some(o[0].1)
    } else {
        obj_lookup(o.drop_first(), key)
    }
}

/// Find the first entry named `key` among the definition's fields.
#[verifier::loop_isolation(false)]
fn obj_get<'a>(o: &'a Vec<(String, JsonVal)>, key: &str) -> (r: Option<&'a JsonVal>)
    ensures
        (match r {
            Some(x) => obj_lookup(o@, key@) == Some(*x),
            Option::None => obj_lookup(o@, key@) is None,
        }),
{
    let mut k: usize = 0;
    proof {
        assert(o@.skip(0) =~= o@);
    }
    while k < o.len()
        invariant
            k <= o@.len(),
            obj_lookup(o@, key@) == obj_lookup(o@.skip(k as int), key@),
        decreases o@.len() - k,
    {
        if str_eq(&o[k].0, key) {
            proof {
                assert(o@.skip(k as int)[0] == o@[k as int]);
            }
            return Some(&o[k].1);
        }
        proof {
            assert(o@.skip(k as int)[0] == o@[k as int]);
            assert(o@.skip(k as int).drop_first() =~= o@.skip(k as int + 1));
        }
        k += 1;
    }
    proof {
        assert(o@.skip(k as int).len() == 0);
    }
    Option::None
}

/// The fields of a validated attribute agree with the definition
/// entries `o`: a missing id reads as 0, a missing index as no
/// indexing, a missing history flag as true, the type as a type whose
/// canonical text leads the `type` field, and the keyword is not
/// reserved.
pub open spec fn attr_fields_ok(o: Seq<(String, JsonVal)>, a: Attribute) -> bool {
    &&& (match obj_lookup(o, "id"@) {
        Option::None => a.id == AttrId(0),
        Some(jv) => json_as_u64(jv) matches Some(u) && a.id == AttrId(u),
    })
    &&& (match obj_lookup(o, "keyword"@) {
        Some(jv) => jv matches JsonVal::Str(s) && a.keyword@ == s@ && !reserved_text(s@),
        Option::None => false,
    })
    &&& (match obj_lookup(o, "cardinality"@) {
        Some(jv) => jv matches JsonVal::Str(s) && card_of_text(s@) == Some(a.cardinality),
        Option::None => false,
    })
    &&& (match obj_lookup(o, "type"@) {
        Some(jv) => jv matches JsonVal::Str(s) && (exists|jj: int|
            0 < jj <= s@.len() && s@.subrange(0, jj) == disp(a.val_type)),
        Option::None => false,
    })
    &&& (match obj_lookup(o, "index"@) {
        Option::None => a.indexing == AttributeIndex::NoIndex,
        Some(jv) => index_of_json(jv) == Some(a.indexing),
    })
    &&& (match obj_lookup(o, "history"@) {
        Option::None => a.with_history == true,
        Some(jv) => jv matches JsonVal::Bool(b) && a.with_history == b,
    })
}

/// The definition's optional `id` field, when present, is a usable
/// identifier number.
pub open spec fn id_field_ok(o: Seq<(String, JsonVal)>) -> bool {
    match obj_lookup(o, "id"@) {
        Option::None => true,
        Some(jv) => json_as_u64(jv) is Some,
    }
}

/// The definition's `keyword` field is present, a string, and not
/// reserved.
pub open spec fn keyword_field_ok(o: Seq<(String, JsonVal)>) -> bool {
    match obj_lookup(o, "keyword"@) {
        Some(jv) => jv matches JsonVal::Str(s) && !reserved_text(s@),
        Option::None => false,
    }
}

/// The definition's `cardinality` field is present, a string, and a
/// recognized spelling.
pub open spec fn cardinality_field_ok(o: Seq<(String, JsonVal)>) -> bool {
    match obj_lookup(o, "cardinality"@) {
        Some(jv) => jv matches JsonVal::Str(s) && card_of_text(s@) is Some,
        Option::None => false,
    }
}

/// The definition's `type` field is present, a string, and the
/// canonical text of a tuple-free type ending on a word boundary.
pub open spec fn type_field_wf(o: Seq<(String, JsonVal)>) -> bool {
    match obj_lookup(o, "type"@) {
        Some(jv) => jv matches JsonVal::Str(s) && (exists|tv: Typing|
            tuple_free(tv) && can_parse(s@, 0, tv)),
        Option::None => false,
    }
}

/// The definition's optional `index` field, when present, names a
/// recognized indexing mode.
pub open spec fn index_field_ok(o: Seq<(String, JsonVal)>) -> bool {
    match obj_lookup(o, "index"@) {
        Option::None => true,
        Some(jv) => index_of_json(jv) is Some,
    }
}

/// The definition's optional `history` field, when present, is a
/// boolean.
pub open spec fn history_field_ok(o: Seq<(String, JsonVal)>) -> bool {
    match obj_lookup(o, "history"@) {
        Option::None => true,
        Some(jv) => jv matches JsonVal::Bool(_),
    }
}

/// A definition on which validation is owed success: every required
/// field present and well-shaped, the keyword unreserved, and the type
/// field the canonical text of a tuple-free type.
pub open spec fn attr_def_wf(o: Seq<(String, JsonVal)>) -> bool {
    &&& id_field_ok(o)
    &&& keyword_field_ok(o)
    &&& cardinality_field_ok(o)
    &&& type_field_wf(o)
    &&& index_field_ok(o)
    &&& history_field_ok(o)
}

/// `r` is the missing-field failure naming `field` and carrying the
/// whole received definition.
pub open spec fn is_missing_field_err(
    r: Result<Attribute, ConvError>,
    field: Seq<char>,
    j: JsonVal,
) -> bool {
    match r {
        Err(ConvError::MissingField(f, jj)) => f@ == field && jveq(jj, j),
        _ => false,
    }
}

/// `r` is the wrong-shape failure naming `field` and carrying the whole
/// received definition.
pub open spec fn is_bad_field_err(
    r: Result<Attribute, ConvError>,
    field: Seq<char>,
    j: JsonVal,
) -> bool {
    match r {
        Err(ConvError::BadField(f, jj)) => f@ == field && jveq(jj, j),
        _ => false,
    }
}

/// The named field is present but not a string.
pub open spec fn field_present_not_str(o: Seq<(String, JsonVal)>, key: Seq<char>) -> bool {
    match obj_lookup(o, key) {
        Some(jv) => !(jv matches JsonVal::Str(_)),
        Option::None => false,
    }
}

/// The exact failure each ill-formed definition is owed, field by field
/// in validation order (id, keyword, cardinality, type, index,
/// history): with every earlier field well-formed, the first offending
/// field decides the error and what it carries.  When the `type` field
/// opens with a bare word naming no simple type, the propagated parser
/// failure is pinned as well.
pub open spec fn attr_err_spec(j: JsonVal, r: Result<Attribute, ConvError>) -> bool {
    match j {
        JsonVal::Obj(o) => {
            &&& (!id_field_ok(o@) ==> (match r {
                Err(ConvError::BadId(k, jj)) => k == IdKind::Attr && (match obj_lookup(
                    o@,
                    "id"@,
                ) {
                    Some(jv) => jveq(jj, jv),
                    Option::None => false,
                }),
                _ => false,
            }))
            &&& (id_field_ok(o@) ==> {
                &&& (obj_lookup(o@, "keyword"@) is None ==> is_missing_field_err(r, "keyword"@, j))
                &&& (field_present_not_str(o@, "keyword"@) ==> is_bad_field_err(r, "keyword"@, j))
                &&& ((match obj_lookup(o@, "keyword"@) {
                    Some(jv) => (match jv {
                        JsonVal::Str(s) => reserved_text(s@),
                        _ => false,
                    }),
                    Option::None => false,
                }) ==> (match r {
                    Err(ConvError::ReservedKeyword(s2)) => (match obj_lookup(o@, "keyword"@) {
                        Some(jv) => (match jv {
                            JsonVal::Str(s) => s2@ == s@,
                            _ => false,
                        }),
                        Option::None => false,
                    }),
                    _ => false,
                }))
            })
            &&& (id_field_ok(o@) && keyword_field_ok(o@) ==> {
                &&& (obj_lookup(o@, "cardinality"@) is None ==> is_missing_field_err(
                    r,
                    "cardinality"@,
                    j,
                ))
                &&& (field_present_not_str(o@, "cardinality"@) ==> is_bad_field_err(
                    r,
                    "cardinality"@,
                    j,
                ))
                &&& ((match obj_lookup(o@, "cardinality"@) {
                    Some(jv) => (match jv {
                        JsonVal::Str(s) => card_of_text(s@) is None,
                        _ => false,
                    }),
                    Option::None => false,
                }) ==> (match r {
                    Err(ConvError::BadCardinality(s2)) => (match obj_lookup(o@, "cardinality"@) {
                        Some(jv) => (match jv {
                            JsonVal::Str(s) => s2@ == s@,
                            _ => false,
                        }),
                        Option::None => false,
                    }),
                    _ => false,
                }))
            })
            &&& (id_field_ok(o@) && keyword_field_ok(o@) && cardinality_field_ok(o@) ==> {
                &&& (obj_lookup(o@, "type"@) is None ==> is_missing_field_err(r, "type"@, j))
                &&& (field_present_not_str(o@, "type"@) ==> is_bad_field_err(r, "type"@, j))
                &&& ((match obj_lookup(o@, "type"@) {
                    Some(jv) => (match jv {
                        JsonVal::Str(s) => s@.len() > 0 && word_char(s@[0]) && keyword_of(
                            s@.subrange(0, word_end(s@, 0)),
                        ) is None,
                        _ => false,
                    }),
                    Option::None => false,
                }) ==> (match r {
                    Err(ConvError::Typing(te)) => (match te {
                        TypingError::UndefinedType(w) => (match obj_lookup(o@, "type"@) {
                            Some(jv) => (match jv {
                                JsonVal::Str(s) => w@ == s@.subrange(0, word_end(s@, 0)),
                                _ => false,
                            }),
                            Option::None => false,
                        }),
                        _ => false,
                    }),
                    _ => false,
                }))
            })
            &&& (id_field_ok(o@) && keyword_field_ok(o@) && cardinality_field_ok(o@)
                && type_field_wf(o@) ==> {
                &&& ((match obj_lookup(o@, "index"@) {
                    Some(jv) => index_of_json(jv) is None,
                    Option::None => false,
                }) ==> (match r {
                    Err(ConvError::BadIndex(jj)) => (match obj_lookup(o@, "index"@) {
                        Some(jv) => jveq(jj, jv),
                        Option::None => false,
                    }),
                    _ => false,
                }))
                &&& (index_field_ok(o@) ==> ((match obj_lookup(o@, "history"@) {
                    Some(jv) => !(jv matches JsonVal::Bool(_)),
                    Option::None => false,
                }) ==> is_bad_field_err(r, "history"@, j)))
            })
        },
        _ => (match r {
            Err(ConvError::NotAnObject(jj)) => jveq(jj, j),
            _ => false,
        }),
    }
}

impl Attribute {
    /// Validate an external definition into an attribute.  On success
    /// every field agrees with the definition, defaults included; a
    /// well-formed definition never fails; and each failure names the
    /// offending field or value.
    pub fn from_json(j: &JsonVal) -> (r: Result<Attribute, ConvError>)
        ensures
            r matches Ok(a) ==> (*j matches JsonVal::Obj(o) && attr_fields_ok(o@, a)),
            (match *j {
                JsonVal::Obj(o) => attr_def_wf(o@),
                _ => false,
            }) ==> r is Ok,
            attr_err_spec(*j, r),
    {
        let o = match j {
            JsonVal::Obj(o) => o,
            _ => {
                return Err(ConvError::NotAnObject(j.clone()));
            }
        };
        let id = match obj_get(o, "id") {
            Option::None => AttrId(0),
            Some(v) => match AttrId::from_json(v) {
                Ok(a) => a,
                Err(e) => {
                    return Err(e);
                }
            },
        };
        let keyword = match obj_get(o, "keyword") {
            Option::None => {
                return Err(ConvError::MissingField("keyword".to_owned(), j.clone()));
            }
            Some(v) => match v {
                JsonVal::Str(s) => {
                    let kw = Keyword::new(s.as_str());
                    if kw.is_reserved() {
                        return Err(ConvError::ReservedKeyword(s.clone()));
                    }
                    kw
                }
                _ => {
                    return Err(ConvError::BadField("keyword".to_owned(), j.clone()));
                }
            },
        };
        let cardinality = match obj_get(o, "cardinality") {
            Option::None => {
                return Err(ConvError::MissingField("cardinality".to_owned(), j.clone()));
            }
            Some(v) => match v {
                JsonVal::Str(s) => match AttributeCardinality::from_text(s.as_str()) {
                    Ok(c) => c,
                    Err(e) => {
                        return Err(e);
                    }
                },
                _ => {
                    return Err(ConvError::BadField("cardinality".to_owned(), j.clone()));
                }
            },
        };
        let val_type = match obj_get(o, "type") {
            Option::None => {
                return Err(ConvError::MissingField("type".to_owned(), j.clone()));
            }
            Some(v) => match v {
                JsonVal::Str(s) => match Typing::from_text(s.as_str()) {
                    Ok(t) => t,
                    Err(e) => {
                        return Err(ConvError::Typing(e));
                    }
                },
                _ => {
                    return Err(ConvError::BadField("type".to_owned(), j.clone()));
                }
            },
        };
        let indexing = match obj_get(o, "index") {
            Option::None => AttributeIndex::NoIndex,
            Some(v) => match v {
                JsonVal::Bool(b) => if *b {
                    AttributeIndex::Indexed
                } else {
                    AttributeIndex::NoIndex
                },
                JsonVal::Str(s) => match AttributeIndex::from_text(s.as_str()) {
                    Some(x) => x,
                    Option::None => {
                        return Err(ConvError::BadIndex(v.clone()));
                    }
                },
                _ => {
                    return Err(ConvError::BadIndex(v.clone()));
                }
            },
        };
        let with_history = match obj_get(o, "history") {
            Option::None => true,
            Some(v) => match v {
                JsonVal::Bool(b) => *b,
                _ => {
                    return Err(ConvError::BadField("history".to_owned(), j.clone()));
                }
            },
        };
        Ok(Attribute { id, keyword, cardinality, val_type, indexing, with_history })
    }

    /// Render this attribute as an external definition: an object that
    /// always carries all six fields, the indexing mode spelled out as
    /// a string.
    pub fn to_json(&self) -> (j: JsonVal)
        ensures
            j matches JsonVal::Obj(es) && es@.len() == 6,
            j matches JsonVal::Obj(es) ==> {
                &&& es@[0].0@ == "id"@ && es@[0].1 == JsonVal::NumUint(self.id.0)
                &&& es@[1].0@ == "keyword"@ && (es@[1].1 matches JsonVal::Str(s) && s@
                    == self.keyword@)
                &&& es@[2].0@ == "cardinality"@ && (es@[2].1 matches JsonVal::Str(s) && s@
                    == card_text(self.cardinality))
                &&& es@[3].0@ == "type"@ && (es@[3].1 matches JsonVal::Str(s) && s@ == disp(
                    self.val_type,
                ))
                &&& es@[4].0@ == "index"@ && (es@[4].1 matches JsonVal::Str(s) && s@ == index_text(
                    self.indexing,
                ))
                &&& es@[5].0@ == "history"@ && es@[5].1 == JsonVal::Bool(self.with_history)
            },
    {
        let mut es: Vec<(String, JsonVal)> = Vec::new();
        es.push(("id".to_owned(), JsonVal::NumUint(self.id.0)));
        es.push(("keyword".to_owned(), JsonVal::Str(self.keyword.to_text())));
        es.push(("cardinality".to_owned(), JsonVal::Str(self.cardinality.to_text())));
        es.push(("type".to_owned(), JsonVal::Str(self.val_type.to_text())));
        es.push(("index".to_owned(), JsonVal::Str(self.indexing.to_text())));
        es.push(("history".to_owned(), JsonVal::Bool(self.with_history)));
        JsonVal::Obj(es)
    }
}

} // verus!
