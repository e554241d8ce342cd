//! Grammar-driven construction of a type from its text form: a
//! recursive-descent parser for the canonical type grammar.
//!
//! The parser consumes exactly one top-level type unit and does not
//! itself require that the whole input is consumed, mirroring the
//! grammar's observed behavior; whether trailing input should be
//! rejected is left open by the format.

use crate::typing::Typing;
use crate::typing::TypingError;
use crate::typing::disp;
use crate::typing::tuple_free;
use vstd::prelude::*;
use vstd::string::StrSliceExecFns;
use vstd::string::StringExecFns;

verus! {

broadcast use vstd::std_specs::vec::group_vec_axioms;

/// Characters that may make up a bare word: keywords and tuple-field
/// identifiers are runs of these.
pub open spec fn word_char(c: char) -> bool {
    ('a' <= c && c <= 'z') || ('A' <= c && c <= 'Z') || ('0' <= c && c <= '9') || c == '_'
}

/// Position `j` does not fall in the middle of a word.
pub open spec fn boundary_ok(s: Seq<char>, j: int) -> bool {
    j >= s.len() || !word_char(s[j])
}

/// The canonical text of `t` stands in `s` at position `i`, ending at a
/// word boundary: the precondition under which parsing must find `t`.
pub open spec fn can_parse(s: Seq<char>, i: int, t: Typing) -> bool {
    &&& 0 <= i
    &&& i + disp(t).len() <= s.len()
    &&& s.subrange(i, i + disp(t).len() as int) == disp(t)
    &&& boundary_ok(s, i + disp(t).len() as int)
}

/// The first character of a canonical text determines the outermost
/// constructor, and no canonical text is empty.
pub proof fn lemma_disp_shape(t: Typing)
    ensures
        disp(t).len() > 0,
        t matches Typing::Any ==> disp(t)[0] == 'A',
        t matches Typing::Bool ==> disp(t)[0] == 'B',
        t matches Typing::Int ==> disp(t)[0] == 'I',
        t matches Typing::Float ==> disp(t)[0] == 'F',
        t matches Typing::Text ==> disp(t)[0] == 'T',
        t matches Typing::Uuid ==> disp(t)[0] == 'U',
        t matches Typing::Nullable(t1) ==> disp(t) == seq!['?'] + disp(*t1),
        t matches Typing::Homogeneous(t1) ==> disp(t) == seq!['['] + disp(*t1) + seq![']'],
        t matches Typing::UnnamedTuple(ts) ==> disp(t)[0] == '(',
        t matches Typing::NamedTuple(ns) ==> disp(t)[0] == '{',
    decreases t,
{
    match t {
        Typing::Nullable(t1) => {
            lemma_disp_shape(*t1);
        }
        Typing::Homogeneous(t1) => {
            lemma_disp_shape(*t1);
        }
        _ => {}
    }
    assert(disp(t).len() > 0);
}

/// A maximal word run and a word that ends at a boundary agree on where
/// the word ends.
proof fn lemma_word_end(s: Seq<char>, i: int, k: int, e: int)
    requires
        0 <= i <= k <= s.len(),
        0 <= i <= e <= s.len(),
        forall|m: int| i <= m < k ==> word_char(#[trigger] s[m]),
        k == s.len() || !word_char(s[k]),
        forall|m: int| i <= m < e ==> word_char(#[trigger] s[m]),
        e == s.len() || !word_char(s[e]),
    ensures
        k == e,
{
    if k < e {
        assert(word_char(s[k]));
    }
    if e < k {
        assert(word_char(s[e]));
    }
}

/// At a maximal bare word, the only types whose canonical text can stand
/// there are the scalar keywords, and the word covers that text exactly.
proof fn lemma_word_complete(s: Seq<char>, i: int, k: int)
    requires
        0 <= i < k <= s.len(),
        forall|m: int| i <= m < k ==> word_char(#[trigger] s[m]),
        k == s.len() || !word_char(s[k]),
        word_char(s[i]),
    ensures
        forall|tv: Typing| tuple_free(tv) && can_parse(s, i, tv) ==> (tv == Typing::Any || tv
            == Typing::Bool || tv == Typing::Int || tv == Typing::Float || tv == Typing::Text || tv
            == Typing::Uuid) && s.subrange(i, k) == disp(tv) && k == i + disp(tv).len(),
{
    assert forall|tv: Typing| tuple_free(tv) && can_parse(s, i, tv) implies (tv == Typing::Any || tv
        == Typing::Bool || tv == Typing::Int || tv == Typing::Float || tv == Typing::Text || tv
        == Typing::Uuid) && s.subrange(i, k) == disp(tv) && k == i + disp(tv).len() by {
        lemma_disp_shape(tv);
        let l = disp(tv).len() as int;
        assert(s[i] == s.subrange(i, i + l)[0]);
        match tv {
            Typing::Any => {
                assert(forall|m: int| i <= m < i + 3 ==> word_char(#[trigger] s[m])) by {
                    assert(forall|m: int|
                        i <= m < i + 3 ==> #[trigger] s[m] == disp(tv)[m - i]);
                }
                lemma_word_end(s, i, k, i + 3);
                assert(s.subrange(i, k) == disp(tv));
            }
            Typing::Bool => {
                assert(forall|m: int| i <= m < i + 4 ==> word_char(#[trigger] s[m])) by {
                    assert(forall|m: int|
                        i <= m < i + 4 ==> #[trigger] s[m] == disp(tv)[m - i]);
                }
                lemma_word_end(s, i, k, i + 4);
                assert(s.subrange(i, k) == disp(tv));
            }
            Typing::Int => {
                assert(forall|m: int| i <= m < i + 3 ==> word_char(#[trigger] s[m])) by {
                    assert(forall|m: int|
                        i <= m < i + 3 ==> #[trigger] s[m] == disp(tv)[m - i]);
                }
                lemma_word_end(s, i, k, i + 3);
                assert(s.subrange(i, k) == disp(tv));
            }
            Typing::Float => {
                assert(forall|m: int| i <= m < i + 5 ==> word_char(#[trigger] s[m])) by {
                    assert(forall|m: int|
                        i <= m < i + 5 ==> #[trigger] s[m] == disp(tv)[m - i]);
                }
                lemma_word_end(s, i, k, i + 5);
                assert(s.subrange(i, k) == disp(tv));
            }
            Typing::Text => {
                assert(forall|m: int| i <= m < i + 4 ==> word_char(#[trigger] s[m])) by {
                    assert(forall|m: int|
                        i <= m < i + 4 ==> #[trigger] s[m] == disp(tv)[m - i]);
                }
                lemma_word_end(s, i, k, i + 4);
                assert(s.subrange(i, k) == disp(tv));
            }
            Typing::Uuid => {
                assert(forall|m: int| i <= m < i + 4 ==> word_char(#[trigger] s[m])) by {
                    assert(forall|m: int|
                        i <= m < i + 4 ==> #[trigger] s[m] == disp(tv)[m - i]);
                }
                lemma_word_end(s, i, k, i + 4);
                assert(s.subrange(i, k) == disp(tv));
            }
            _ => {
                assert(!word_char(s[i]));
            }
        }
    }
}

/// No tuple-free type's canonical text starts with a tuple delimiter.
proof fn lemma_no_tuple_free_here(s: Seq<char>, i: int)
    requires
        0 <= i < s.len(),
        s[i] == '(' || s[i] == '{',
    ensures
        forall|tv: Typing| !(tuple_free(tv) && can_parse(s, i, tv)),
{
    assert forall|tv: Typing| !(tuple_free(tv) && can_parse(s, i, tv)) by {
        if tuple_free(tv) && can_parse(s, i, tv) {
            lemma_disp_shape(tv);
            let l = disp(tv).len() as int;
            assert(s[i] == s.subrange(i, i + l)[0]);
            assert(false);
        }
    }
}

/// Scan the maximal run of word characters starting at `i`.
fn scan_word(s: &str, n: usize, i: usize) -> (k: usize)
    requires
        n == s@.len(),
        i <= n,
    ensures
        i <= k <= n,
        forall|m: int| i <= m < k ==> word_char(#[trigger] s@[m]),
        k == n || !word_char(s@[k as int]),
{
    let mut k: usize = i;
    loop
        invariant
            n == s@.len(),
            i <= k <= n,
            forall|m: int| i <= m < k ==> word_char(#[trigger] s@[m]),
        ensures
            i <= k <= n,
            forall|m: int| i <= m < k ==> word_char(#[trigger] s@[m]),
            k == n || !word_char(s@[k as int]),
        decreases n - k,
    {
        if k == n {
            break ;
        }
        let ck = s.get_char(k);
        if !is_word_char(ck) {
            break ;
        }
        k += 1;
    }
    k
}

/// Whether `c` may make up a bare word.
fn is_word_char(c: char) -> (b: bool)
    ensures
        b == word_char(c),
{
    ('a' <= c && c <= 'z') || ('A' <= c && c <= 'Z') || ('0' <= c && c <= '9') || c == '_'
}

/// The end of the maximal word run starting at `i`.
pub open spec fn word_end(s: Seq<char>, i: int) -> int
    decreases s.len() - i,
{
    if i < 0 || i >= s.len() || !word_char(s[i]) {
        i
    } else {
        word_end(s, i + 1)
    }
}

/// A scan that stopped at a boundary found exactly the maximal word.
proof fn lemma_word_end_of_scan(s: Seq<char>, i: int, k: int)
    requires
        0 <= i <= k <= s.len(),
        forall|m: int| i <= m < k ==> word_char(#[trigger] s[m]),
        k == s.len() || !word_char(s[k]),
    ensures
        word_end(s, i) == k,
    decreases k - i,
{
    if i < k {
        lemma_word_end_of_scan(s, i + 1, k);
    }
}

/// The scalar type a bare word names, if any: exactly the six
/// case-sensitive keywords.
pub open spec fn keyword_of(w: Seq<char>) -> Option<Typing> {
    if w == "Any"@ {
        Some(Typing::Any)
    } else if w == "Bool"@ {
        Some(Typing::Bool)
    } else if w == "Int"@ {
        Some(Typing::Int)
    } else if w == "Float"@ {
        Some(Typing::Float)
    } else if w == "Text"@ {
        Some(Typing::Text)
    } else if w == "Uuid"@ {
        Some(Typing::Uuid)
    } else {
        Option::None
    }
}

/// Looking through nullable and list openers to the first nested
/// position parsing visits: if a bare word naming no simple type stands
/// there, its text.  Parsing fails with exactly that undefined-type
/// error, propagated unchanged through the enclosing forms.
pub open spec fn nested_word_failure(s: Seq<char>, i: int) -> Option<Seq<char>>
    decreases s.len() - i,
{
    if i < 0 || i >= s.len() {
        Option::None
    } else if s[i] == '?' || s[i] == '[' {
        nested_word_failure(s, i + 1)
    } else if word_char(s[i]) {
        if keyword_of(s.subrange(i, word_end(s, i))) is None {
            Some(s.subrange(i, word_end(s, i)))
        } else {
            Option::None
        }
    } else {
        Option::None
    }
}

/// Whether the text of `w` is exactly `kw`.
pub(crate) fn str_eq(w: &String, kw: &str) -> (b: bool)
    ensures
        b == (w@ == kw@),
{
    let kws: String = kw.to_owned();
    w.eq(&kws)
}

/// Parse one type starting at character position `i` of `s`, whose
/// character length is `n`.  On success the returned position is the end
/// of the consumed text, which reads back as the canonical form of the
/// returned type; and whenever the canonical text of a tuple-free type
/// stands at `i` ending on a word boundary, exactly that type is found.
#[verifier::loop_isolation(false)]
#[verifier::rlimit(60)]
pub(crate) fn parse_at(s: &str, n: usize, i: usize) -> (r: Result<(Typing, usize), TypingError>)
    requires
        n == s@.len(),
        i <= n,
    ensures
        (match r {
            Ok((t, j)) => i < j <= n && s@.subrange(i as int, j as int) == disp(t),
            Err(e) => e matches TypingError::Parse(_, _) || e matches TypingError::UndefinedType(_)
                || e matches TypingError::TextParse(_),
        }),
        forall|tv: Typing| tuple_free(tv) && #[trigger] can_parse(s@, i as int, tv) ==> r
            == Ok::<(Typing, usize), TypingError>((tv, (i + disp(tv).len()) as usize)),
        i < n && word_char(s@[i as int]) ==> (match keyword_of(
            s@.subrange(i as int, word_end(s@, i as int)),
        ) {
            Some(t) => r == Ok::<(Typing, usize), TypingError>(
                (t, word_end(s@, i as int) as usize),
            ),
            Option::None => (r matches Err(e) && e matches TypingError::UndefinedType(w) && w@
                == s@.subrange(i as int, word_end(s@, i as int))),
        }),
        (match r {
            Ok((t, j)) => {
                &&& (s@[i as int] == '?' ==> t matches Typing::Nullable(_))
                &&& (s@[i as int] == '[' ==> t matches Typing::Homogeneous(_))
                &&& (s@[i as int] == '(' ==> t matches Typing::UnnamedTuple(_))
                &&& (s@[i as int] == '{' ==> t matches Typing::NamedTuple(_))
            },
            Err(_) => true,
        }),
        nested_word_failure(s@, i as int) matches Some(w) ==> (r matches Err(e) && e
            matches TypingError::UndefinedType(w2) && w2@ == w),
    decreases n - i,
{
    if i == n {
        let r: Result<(Typing, usize), TypingError> = Err(
            TypingError::Parse(i, String::from_str("a type expression")),
        );
        proof {
            assert forall|tv: Typing|
                tuple_free(tv) && #[trigger] can_parse(s@, i as int, tv) implies r == Ok::<
                (Typing, usize),
                TypingError,
            >((tv, (i + disp(tv).len()) as usize)) by {
                lemma_disp_shape(tv);
            }
        }
        return r;
    }
    let c = s.get_char(i);
    if c == '?' {
        match parse_at(s, n, i + 1) {
            Ok((t, j)) => {
                let r: Result<(Typing, usize), TypingError> = Ok(
                    (Typing::Nullable(Box::new(t)), j),
                );
                proof {
                    assert(s@.subrange(i as int, j as int) =~= seq!['?'] + disp(t));
                    assert forall|tv: Typing|
                        tuple_free(tv) && #[trigger] can_parse(s@, i as int, tv) implies r == Ok::<
                        (Typing, usize),
                        TypingError,
                    >((tv, (i + disp(tv).len()) as usize)) by {
                        lemma_disp_shape(tv);
                        let l = disp(tv).len() as int;
                        assert(s@[i as int] == s@.subrange(i as int, i + l)[0]);
                        match tv {
                            Typing::Nullable(tb) => {
                                assert forall|m: int|
                                    0 <= m < l - 1 implies s@.subrange(i + 1, i + l)[m] == disp(
                                    *tb,
                                )[m] by {
                                    assert(s@.subrange(i as int, i + l)[m + 1] == disp(tv)[m + 1]);
                                }
                                assert(s@.subrange(i + 1, i + l) =~= disp(*tb));
                                assert(can_parse(s@, i + 1, *tb));
                            }
                            _ => {
                                assert(false);
                            }
                        }
                    }
                }
                r
            }
            Err(e) => {
                let r: Result<(Typing, usize), TypingError> = Err(e);
                proof {
                    assert forall|tv: Typing|
                        tuple_free(tv) && #[trigger] can_parse(s@, i as int, tv) implies r == Ok::<
                        (Typing, usize),
                        TypingError,
                    >((tv, (i + disp(tv).len()) as usize)) by {
                        lemma_disp_shape(tv);
                        let l = disp(tv).len() as int;
                        assert(s@[i as int] == s@.subrange(i as int, i + l)[0]);
                        match tv {
                            Typing::Nullable(tb) => {
                                assert forall|m: int|
                                    0 <= m < l - 1 implies s@.subrange(i + 1, i + l)[m] == disp(
                                    *tb,
                                )[m] by {
                                    assert(s@.subrange(i as int, i + l)[m + 1] == disp(tv)[m + 1]);
                                }
                                assert(s@.subrange(i + 1, i + l) =~= disp(*tb));
                                assert(can_parse(s@, i + 1, *tb));
                            }
                            _ => {
                                assert(false);
                            }
                        }
                    }
                }
                r
            }
        }
    } else if c == '[' {
        match parse_at(s, n, i + 1) {
            Ok((t, j)) => {
                if j < n && s.get_char(j) == ']' {
                    let r: Result<(Typing, usize), TypingError> = Ok(
                        (Typing::Homogeneous(Box::new(t)), j + 1),
                    );
                    proof {
                        assert(s@.subrange(i as int, j + 1) =~= seq!['['] + disp(t) + seq![']']);
                        assert forall|tv: Typing|
                            tuple_free(tv) && #[trigger] can_parse(s@, i as int, tv) implies r
                            == Ok::<(Typing, usize), TypingError>(
                            (tv, (i + disp(tv).len()) as usize),
                        ) by {
                            lemma_disp_shape(tv);
                            let l = disp(tv).len() as int;
                            assert(s@[i as int] == s@.subrange(i as int, i + l)[0]);
                            match tv {
                                Typing::Homogeneous(tb) => {
                                    let lb = disp(*tb).len() as int;
                                    assert forall|m: int|
                                        0 <= m < lb implies s@.subrange(i + 1, i + 1 + lb)[m]
                                        == disp(*tb)[m] by {
                                        assert(s@.subrange(i as int, i + l)[m + 1] == disp(tv)[m
                                            + 1]);
                                    }
                                    assert(s@.subrange(i + 1, i + 1 + lb) =~= disp(*tb));
                                    assert(s@[i + 1 + lb] == s@.subrange(i as int, i + l)[l - 1]);
                                    assert(!word_char(']'));
                                    assert(can_parse(s@, i + 1, *tb));
                                }
                                _ => {
                                    assert(false);
                                }
                            }
                        }
                    }
                    r
                } else {
                    let r: Result<(Typing, usize), TypingError> = Err(
                        TypingError::Parse(j, String::from_str("]")),
                    );
                    proof {
                        assert forall|tv: Typing|
                            tuple_free(tv) && #[trigger] can_parse(s@, i as int, tv) implies r
                            == Ok::<(Typing, usize), TypingError>(
                            (tv, (i + disp(tv).len()) as usize),
                        ) by {
                            lemma_disp_shape(tv);
                            let l = disp(tv).len() as int;
                            assert(s@[i as int] == s@.subrange(i as int, i + l)[0]);
                            match tv {
                                Typing::Homogeneous(tb) => {
                                    let lb = disp(*tb).len() as int;
                                    assert forall|m: int|
                                        0 <= m < lb implies s@.subrange(i + 1, i + 1 + lb)[m]
                                        == disp(*tb)[m] by {
                                        assert(s@.subrange(i as int, i + l)[m + 1] == disp(tv)[m
                                            + 1]);
                                    }
                                    assert(s@.subrange(i + 1, i + 1 + lb) =~= disp(*tb));
                                    assert(s@[i + 1 + lb] == s@.subrange(i as int, i + l)[l - 1]);
                                    assert(!word_char(']'));
                                    assert(can_parse(s@, i + 1, *tb));
                                    assert(false);
                                }
                                _ => {
                                    assert(false);
                                }
                            }
                        }
                    }
                    r
                }
            }
            Err(e) => {
                let r: Result<(Typing, usize), TypingError> = Err(e);
                proof {
                    assert forall|tv: Typing|
                        tuple_free(tv) && #[trigger] can_parse(s@, i as int, tv) implies r == Ok::<
                        (Typing, usize),
                        TypingError,
                    >((tv, (i + disp(tv).len()) as usize)) by {
                        lemma_disp_shape(tv);
                        let l = disp(tv).len() as int;
                        assert(s@[i as int] == s@.subrange(i as int, i + l)[0]);
                        match tv {
                            Typing::Homogeneous(tb) => {
                                let lb = disp(*tb).len() as int;
                                assert forall|m: int|
                                    0 <= m < lb implies s@.subrange(i + 1, i + 1 + lb)[m] == disp(
                                    *tb,
                                )[m] by {
                                    assert(s@.subrange(i as int, i + l)[m + 1] == disp(tv)[m + 1]);
                                }
                                assert(s@.subrange(i + 1, i + 1 + lb) =~= disp(*tb));
                                assert(s@[i + 1 + lb] == s@.subrange(i as int, i + l)[l - 1]);
                                assert(!word_char(']'));
                                assert(can_parse(s@, i + 1, *tb));
                                assert(false);
                            }
                            _ => {
                                assert(false);
                            }
                        }
                    }
                }
                r
            }
        }
    } else if c == '(' {
        proof {
            lemma_no_tuple_free_here(s@, i as int);
        }
        parse_unnamed_tail(s, n, i)
    } else if c == '{' {
        proof {
            lemma_no_tuple_free_here(s@, i as int);
        }
        parse_named_tail(s, n, i)
    } else if is_word_char(c) {
        let k = scan_word(s, n, i);
        proof {
            lemma_word_complete(s@, i as int, k as int);
            lemma_word_end_of_scan(s@, i as int, k as int);
            reveal_strlit("Any");
            reveal_strlit("Bool");
            reveal_strlit("Int");
            reveal_strlit("Float");
            reveal_strlit("Text");
            reveal_strlit("Uuid");
            assert("Any"@ =~= seq!['A', 'n', 'y']);
            assert("Bool"@ =~= seq!['B', 'o', 'o', 'l']);
            assert("Int"@ =~= seq!['I', 'n', 't']);
            assert("Float"@ =~= seq!['F', 'l', 'o', 'a', 't']);
            assert("Text"@ =~= seq!['T', 'e', 'x', 't']);
            assert("Uuid"@ =~= seq!['U', 'u', 'i', 'd']);
        }
        let w: String = s.substring_char(i, k).to_owned();
        if str_eq(&w, "Any") {
            let r: Result<(Typing, usize), TypingError> = Ok((Typing::Any, k));
            proof {
                reveal_strlit("Any");
                assert(s@.subrange(i as int, k as int) =~= disp(Typing::Any));
            }
            r
        } else if str_eq(&w, "Bool") {
            let r: Result<(Typing, usize), TypingError> = Ok((Typing::Bool, k));
            proof {
                reveal_strlit("Bool");
                assert(s@.subrange(i as int, k as int) =~= disp(Typing::Bool));
            }
            r
        } else if str_eq(&w, "Int") {
            let r: Result<(Typing, usize), TypingError> = Ok((Typing::Int, k));
            proof {
                reveal_strlit("Int");
                assert(s@.subrange(i as int, k as int) =~= disp(Typing::Int));
            }
            r
        } else if str_eq(&w, "Float") {
            let r: Result<(Typing, usize), TypingError> = Ok((Typing::Float, k));
            proof {
                reveal_strlit("Float");
                assert(s@.subrange(i as int, k as int) =~= disp(Typing::Float));
            }
            r
        } else if str_eq(&w, "Text") {
            let r: Result<(Typing, usize), TypingError> = Ok((Typing::Text, k));
            proof {
                reveal_strlit("Text");
                assert(s@.subrange(i as int, k as int) =~= disp(Typing::Text));
            }
            r
        } else if str_eq(&w, "Uuid") {
            let r: Result<(Typing, usize), TypingError> = Ok((Typing::Uuid, k));
            proof {
                reveal_strlit("Uuid");
                assert(s@.subrange(i as int, k as int) =~= disp(Typing::Uuid));
            }
            r
        } else {
            let r: Result<(Typing, usize), TypingError> = Err(TypingError::UndefinedType(w));
            proof {
                reveal_strlit("Any");
                reveal_strlit("Bool");
                reveal_strlit("Int");
                reveal_strlit("Float");
                reveal_strlit("Text");
                reveal_strlit("Uuid");
                assert("Any"@ =~= seq!['A', 'n', 'y']);
                assert("Bool"@ =~= seq!['B', 'o', 'o', 'l']);
                assert("Int"@ =~= seq!['I', 'n', 't']);
                assert("Float"@ =~= seq!['F', 'l', 'o', 'a', 't']);
                assert("Text"@ =~= seq!['T', 'e', 'x', 't']);
                assert("Uuid"@ =~= seq!['U', 'u', 'i', 'd']);
                assert forall|tv: Typing|
                    tuple_free(tv) && #[trigger] can_parse(s@, i as int, tv) implies r == Ok::<
                    (Typing, usize),
                    TypingError,
                >((tv, (i + disp(tv).len()) as usize)) by {
                    match tv {
                        Typing::Any => {
                            assert(w@ == disp(tv));
                            assert(false);
                        }
                        Typing::Bool => {
                            assert(w@ == disp(tv));
                            assert(false);
                        }
                        Typing::Int => {
                            assert(w@ == disp(tv));
                            assert(false);
                        }
                        Typing::Float => {
                            assert(w@ == disp(tv));
                            assert(false);
                        }
                        Typing::Text => {
                            assert(w@ == disp(tv));
                            assert(false);
                        }
                        Typing::Uuid => {
                            assert(w@ == disp(tv));
                            assert(false);
                        }
                        _ => {
                            assert(false);
                        }
                    }
                }
            }
            r
        }
    } else {
        let r: Result<(Typing, usize), TypingError> = Err(
            TypingError::Parse(i, String::from_str("a type expression")),
        );
        proof {
            assert forall|tv: Typing|
                tuple_free(tv) && #[trigger] can_parse(s@, i as int, tv) implies r == Ok::<
                (Typing, usize),
                TypingError,
            >((tv, (i + disp(tv).len()) as usize)) by {
                lemma_disp_shape(tv);
                let l = disp(tv).len() as int;
                assert(s@[i as int] == s@.subrange(i as int, i + l)[0]);
                match tv {
                    Typing::Any => {
                        assert(false);
                    }
                    Typing::Bool => {
                        assert(false);
                    }
                    Typing::Int => {
                        assert(false);
                    }
                    Typing::Float => {
                        assert(false);
                    }
                    Typing::Text => {
                        assert(false);
                    }
                    Typing::Uuid => {
                        assert(false);
                    }
                    Typing::Nullable(_) => {
                        assert(false);
                    }
                    Typing::Homogeneous(_) => {
                        assert(false);
                    }
                    Typing::UnnamedTuple(_) => {
                        assert(false);
                    }
                    Typing::NamedTuple(_) => {
                        assert(false);
                    }
                }
            }
        }
        r
    }
}

/// Appending a member extends the joined canonical text of an unnamed
/// tuple by a comma (when members precede) and the member's text.
proof fn lemma_disp_unnamed_snoc(a: Vec<Typing>, b: Vec<Typing>, t: Typing, from: int)
    requires
        b@ == a@.push(t),
        0 <= from <= a@.len(),
    ensures
        crate::typing::disp_unnamed(b, from) == if from < a@.len() {
            crate::typing::disp_unnamed(a, from) + seq![','] + disp(t)
        } else {
            disp(t)
        },
    decreases a@.len() - from,
{
    if from < a@.len() {
        lemma_disp_unnamed_snoc(a, b, t, from + 1);
        assert(b@[from] == a@[from]);
        if from + 1 < a@.len() {
            assert(disp(a@[from]) + seq![','] + (crate::typing::disp_unnamed(a, from + 1)
                + seq![','] + disp(t)) =~= (disp(a@[from]) + seq![',']
                + crate::typing::disp_unnamed(a, from + 1)) + seq![','] + disp(t));
        }
    }
}

/// Appending an entry extends the joined canonical text of a named
/// tuple likewise.
proof fn lemma_disp_named_snoc(
    a: Vec<(String, Typing)>,
    b: Vec<(String, Typing)>,
    e: (String, Typing),
    from: int,
)
    requires
        b@ == a@.push(e),
        0 <= from <= a@.len(),
    ensures
        crate::typing::disp_named(b, from) == if from < a@.len() {
            crate::typing::disp_named(a, from) + seq![','] + (seq!['"'] + e.0@ + seq!['"', ':']
                + disp(e.1))
        } else {
            seq!['"'] + e.0@ + seq!['"', ':'] + disp(e.1)
        },
    decreases a@.len() - from,
{
    let entry = seq!['"'] + e.0@ + seq!['"', ':'] + disp(e.1);
    if from < a@.len() {
        lemma_disp_named_snoc(a, b, e, from + 1);
        assert(b@[from] == a@[from]);
        let head = seq!['"'] + a@[from].0@ + seq!['"', ':'] + disp(a@[from].1);
        if from + 1 < a@.len() {
            assert(head + seq![','] + (crate::typing::disp_named(a, from + 1) + seq![','] + entry)
                =~= (head + seq![','] + crate::typing::disp_named(a, from + 1)) + seq![',']
                + entry);
        }
    }
}

/// Parse the members of an unnamed tuple: `s` holds `(` at `i`.
#[verifier::loop_isolation(false)]
#[verifier::rlimit(60)]
fn parse_unnamed_tail(s: &str, n: usize, i: usize) -> (r: Result<(Typing, usize), TypingError>)
    requires
        n == s@.len(),
        i < n,
        s@[i as int] == '(',
    ensures
        (match r {
            Ok((t, j)) => i < j <= n && s@.subrange(i as int, j as int) == disp(t) && t matches Typing::UnnamedTuple(_),
            Err(e) => e matches TypingError::Parse(_, _) || e matches TypingError::UndefinedType(_)
                || e matches TypingError::TextParse(_),
        }),
    decreases n - i, 0int,
{
    let mut pos: usize = i + 1;
    let mut es: Vec<Typing> = Vec::new();
    if pos < n && s.get_char(pos) == ')' {
        let r: Result<(Typing, usize), TypingError> = Ok((Typing::UnnamedTuple(es), pos + 1));
        proof {
            assert(s@.subrange(i as int, i + 2) =~= seq!['('] + crate::typing::disp_unnamed(es, 0)
                + seq![')']);
        }
        return r;
    }
    loop
        invariant
            i + 1 <= pos <= n,
            s@.subrange(i as int, pos as int) == seq!['('] + crate::typing::disp_unnamed(es, 0) + (
            if es@.len() > 0 {
                seq![',']
            } else {
                Seq::<char>::empty()
            }),
        decreases n - pos,
    {
        let (t, j) = match parse_at(s, n, pos) {
            Ok(x) => x,
            Err(e) => {
                return Err(e);
            }
        };
        let ghost es0 = es;
        es.push(t);
        proof {
            lemma_disp_unnamed_snoc(es0, es, t, 0);
            assert(s@.subrange(i as int, j as int) =~= s@.subrange(i as int, pos as int)
                + s@.subrange(pos as int, j as int));
            assert(s@.subrange(i as int, j as int) =~= seq!['('] + crate::typing::disp_unnamed(
                es,
                0,
            ));
        }
        if j < n && s.get_char(j) == ')' {
            let r: Result<(Typing, usize), TypingError> = Ok((Typing::UnnamedTuple(es), j + 1));
            proof {
                assert(s@.subrange(i as int, j + 1) =~= s@.subrange(i as int, j as int)
                    + seq![')']);
            }
            return r;
        } else if j < n && s.get_char(j) == ',' {
            proof {
                assert(s@.subrange(i as int, j + 1) =~= s@.subrange(i as int, j as int)
                    + seq![',']);
            }
            pos = j + 1;
        } else {
            return Err(TypingError::Parse(j, String::from_str(", or )")));
        }
    }
}

/// Whether `c` may open a tuple-field identifier.
fn is_name_start(c: char) -> (b: bool)
    ensures
        b == (word_char(c) && !('0' <= c && c <= '9')),
{
    ('a' <= c && c <= 'z') || ('A' <= c && c <= 'Z') || c == '_'
}

/// Parse the entries of a named tuple: `s` holds `{` at `i`.  A
/// tuple-field identifier is a quoted word that does not begin with a
/// digit; anything else is a text-parse failure.
#[verifier::loop_isolation(false)]
#[verifier::rlimit(60)]
fn parse_named_tail(s: &str, n: usize, i: usize) -> (r: Result<(Typing, usize), TypingError>)
    requires
        n == s@.len(),
        i < n,
        s@[i as int] == '{',
    ensures
        (match r {
            Ok((t, j)) => i < j <= n && s@.subrange(i as int, j as int) == disp(t) && t matches Typing::NamedTuple(_),
            Err(e) => e matches TypingError::Parse(_, _) || e matches TypingError::UndefinedType(_)
                || e matches TypingError::TextParse(_),
        }),
    decreases n - i, 0int,
{
    let mut pos: usize = i + 1;
    let mut es: Vec<(String, Typing)> = Vec::new();
    if pos < n && s.get_char(pos) == '}' {
        let r: Result<(Typing, usize), TypingError> = Ok((Typing::NamedTuple(es), pos + 1));
        proof {
            assert(s@.subrange(i as int, i + 2) =~= seq!['{'] + crate::typing::disp_named(es, 0)
                + seq!['}']);
        }
        return r;
    }
    loop
        invariant
            i + 1 <= pos <= n,
            s@.subrange(i as int, pos as int) == seq!['{'] + crate::typing::disp_named(es, 0) + (
            if es@.len() > 0 {
                seq![',']
            } else {
                Seq::<char>::empty()
            }),
        decreases n - pos,
    {
        if pos == n || s.get_char(pos) != '"' {
            return Err(TypingError::Parse(pos, String::from_str("\"")));
        }
        let p0: usize = pos + 1;
        let q = scan_word(s, n, p0);
        if q == p0 || !is_name_start(s.get_char(p0)) {
            return Err(TypingError::TextParse(p0));
        }
        if q == n || s.get_char(q) != '"' {
            return Err(TypingError::TextParse(q));
        }
        if q + 1 == n || s.get_char(q + 1) != ':' {
            return Err(TypingError::Parse(q + 1, String::from_str(":")));
        }
        let (t, j) = match parse_at(s, n, q + 2) {
            Ok(x) => x,
            Err(e) => {
                return Err(e);
            }
        };
        let name: String = s.substring_char(p0, q).to_owned();
        let ghost es0 = es;
        let ghost entry_text = seq!['"'] + name@ + seq!['"', ':'] + disp(t);
        es.push((name, t));
        proof {
            lemma_disp_named_snoc(es0, es, (name, t), 0);
            assert(s@.subrange(pos as int, j as int) =~= entry_text);
            assert(s@.subrange(i as int, j as int) =~= s@.subrange(i as int, pos as int)
                + s@.subrange(pos as int, j as int));
            assert(s@.subrange(i as int, j as int) =~= seq!['{'] + crate::typing::disp_named(
                es,
                0,
            ));
        }
        if j < n && s.get_char(j) == '}' {
            let r: Result<(Typing, usize), TypingError> = Ok((Typing::NamedTuple(es), j + 1));
            proof {
                assert(s@.subrange(i as int, j + 1) =~= s@.subrange(i as int, j as int)
                    + seq!['}']);
            }
            return r;
        } else if j < n && s.get_char(j) == ',' {
            proof {
                assert(s@.subrange(i as int, j + 1) =~= s@.subrange(i as int, j as int)
                    + seq![',']);
            }
            pos = j + 1;
        } else {
            return Err(TypingError::Parse(j, String::from_str(", or }")));
        }
    }
}

impl Typing {
    /// Parse a type expression: build the type whose canonical text
    /// leads `text`.  On success the consumed prefix reads back as the
    /// canonical form of the result; when the whole of `text` is the
    /// canonical text of a tuple-free type, exactly that type comes
    /// back.
    pub fn from_text(text: &str) -> (r: Result<Typing, TypingError>)
        ensures
            (match r {
                Ok(t) => exists|j: int|
                    0 < j <= text@.len() && text@.subrange(0, j) == disp(t),
                Err(e) => e matches TypingError::Parse(_, _) || e matches TypingError::UndefinedType(
                    _,
                ) || e matches TypingError::TextParse(_),
            }),
            forall|tv: Typing| tuple_free(tv) && #[trigger] can_parse(text@, 0, tv) ==> r == Ok::<
                Typing,
                TypingError,
            >(tv),
            text@.len() > 0 && word_char(text@[0]) ==> (match keyword_of(
                text@.subrange(0, word_end(text@, 0)),
            ) {
                Some(t) => r == Ok::<Typing, TypingError>(t),
                Option::None => (r matches Err(e) && e matches TypingError::UndefinedType(w) && w@
                    == text@.subrange(0, word_end(text@, 0))),
            }),
            (match r {
                Ok(t) => text@.len() > 0 && {
                    &&& (text@[0] == '?' ==> t matches Typing::Nullable(_))
                    &&& (text@[0] == '[' ==> t matches Typing::Homogeneous(_))
                    &&& (text@[0] == '(' ==> t matches Typing::UnnamedTuple(_))
                    &&& (text@[0] == '{' ==> t matches Typing::NamedTuple(_))
                },
                Err(_) => true,
            }),
            nested_word_failure(text@, 0) matches Some(w) ==> (r matches Err(e) && e
                matches TypingError::UndefinedType(w2) && w2@ == w),
    {
        let n = text.unicode_len();
        match parse_at(text, n, 0) {
            Ok((t, j)) => {
                proof {
                    assert(0 < j <= text@.len() && text@.subrange(0, j as int) == disp(t));
                }
                Ok(t)
            }
            Err(e) => Err(e),
        }
    }
}

/// Round trip: the canonical text of a tuple-free type parses back to
/// exactly that type.  Together with the contracts of
/// [`Typing::to_text`] and [`Typing::from_text`], this gives
/// `from_text(to_text(t)) == Ok(t)` for every tuple-free `t`.
pub proof fn lemma_parse_round_trip(t: Typing)
    requires
        tuple_free(t),
    ensures
        can_parse(disp(t), 0, t),
{
    assert(disp(t).subrange(0, disp(t).len() as int) =~= disp(t));
}

} // verus!
