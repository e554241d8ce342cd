//! Keywords: canonical name tokens identifying attributes, with a
//! reservation predicate for system names.

use vstd::prelude::*;
use vstd::string::StrSliceExecFns;

verus! {

/// Whether a keyword text is reserved for the system: reserved names
/// begin with an underscore.
pub open spec fn reserved_text(s: Seq<char>) -> bool {
    s.len() > 0 && s[0] == '_'
}

/// A canonical, validated name token identifying an attribute or a
/// reserved system name.
#[derive(Debug, PartialEq, Eq)]
pub struct Keyword {
    text: String,
}

impl Clone for Keyword {
    /// A copy equal to the original.
    fn clone(&self) -> (res: Self)
        ensures
            res == *self,
    {
        Keyword { text: self.text.clone() }
    }
}

impl View for Keyword {
    type V = Seq<char>;

    closed spec fn view(&self) -> Seq<char> {
        self.text@
    }
}

impl Keyword {
    /// Take a name text as a keyword.
    pub fn new(s: &str) -> (kw: Keyword)
        ensures
            kw@ == s@,
    {
        Keyword { text: s.to_owned() }
    }

    /// The canonical text of this keyword.
    pub fn to_text(&self) -> (out: String)
        ensures
            out@ == self@,
    {
        self.text.clone()
    }

    /// Whether this keyword names a reserved system slot: its text
    /// begins with an underscore.
    pub fn is_reserved(&self) -> (b: bool)
        ensures
            b == reserved_text(self@),
    {
        let n = self.text.as_str().unicode_len();
        if n == 0 {
            false
        } else {
            self.text.as_str().get_char(0) == '_'
        }
    }
}

} // verus!
