//! Names of database objects: tables, columns and aliases.

use vstd::prelude::*;
use vstd::std_specs::cmp::PartialEqSpecImpl;
use crate::text::{chars_of, is_digit, is_lower, is_upper, lower_of, string_of, to_lower};

verus! {

/// A character that a name may hold: a letter, a digit, `_` or a space.
pub open spec fn is_name_char(c: char) -> bool {
    is_lower(c) || is_upper(c) || is_digit(c) || c == '_' || c == ' '
}

/// A text that can be made a name: at least one character, all of them
/// name characters, the first neither a digit nor a space.
pub open spec fn is_valid_name(s: Seq<char>) -> bool {
    &&& s.len() > 0
    &&& !is_digit(s[0])
    &&& s[0] != ' '
    &&& forall|i: int| 0 <= i < s.len() ==> is_name_char(#[trigger] s[i])
}

/// The canonical form of a text: every upper-case letter folded to lower
/// case.
pub open spec fn fold_case(s: Seq<char>) -> Seq<char> {
    Seq::new(s.len(), |i: int| lower_of(s[i]))
}

/// The canonical form of a valid name, and `None` for any other text.
pub open spec fn normalized(s: Seq<char>) -> Option<Seq<char>> {
    if is_valid_name(s) {
        Some(fold_case(s))
    } else {
        None
    }
}

/// A text that is its own canonical form.
pub open spec fn is_normal(s: Seq<char>) -> bool {
    normalized(s) == Some(s)
}

/// Folding a valid name gives a name that folding leaves alone.
pub proof fn lemma_fold_case_is_normal(s: Seq<char>)
    requires
        is_valid_name(s),
    ensures
        is_normal(fold_case(s)),
{
    let f = fold_case(s);
    assert forall|i: int| 0 <= i < f.len() implies is_name_char(#[trigger] f[i]) && lower_of(f[i])
        == f[i] by {
        assert(is_name_char(s[i]));
    }
    assert(is_name_char(s[0]));
    assert(fold_case(f) =~= f);
}

/// An identifier is the name of a database object. It is kept in its
/// canonical lower-case form, so that two identifiers are equal exactly
/// when the names they were made from differ in case only.
pub struct Identifier {
    value: String,
}

impl View for Identifier {
    type V = Seq<char>;

    closed spec fn view(&self) -> Seq<char> {
        self.value@
    }
}

impl Identifier {
    #[verifier::type_invariant]
    spec fn canonical(&self) -> bool {
        is_normal(self.value@)
    }

    /// Makes an identifier from a text, folding its case; `None` where the
    /// text is no valid name.
    pub fn new(value: &str) -> (r: Option<Identifier>)
        ensures
            match r {
                Some(ident) => normalized(value@) == Some(ident@),
                None => normalized(value@).is_none(),
            },
    {
        match normalize(value) {
            Some(s) => {
                proof {
                    lemma_fold_case_is_normal(value@);
                }
                Some(Identifier { value: s })
            },
            None => None,
        }
    }

    /// Makes an identifier from a text that is already canonical.
    pub fn from_string(value: String) -> (r: Identifier)
        requires
            is_normal(value@),
        ensures
            r@ == value@,
    {
        Identifier { value }
    }

    /// Gives up the canonical name.
    pub fn into_inner(self) -> (r: String)
        ensures
            r@ == self@,
    {
        self.value
    }

    /// The canonical name.
    pub fn as_slice(&self) -> (r: &str)
        ensures
            r@ == self@,
            is_normal(r@),
    {
        proof {
            use_type_invariant(self);
        }
        self.value.as_str()
    }

    /// The canonical name, as a text of its own.
    pub fn to_string(&self) -> (r: String)
        ensures
            r@ == self@,
    {
        self.value.clone()
    }
}

impl Clone for Identifier {
    fn clone(&self) -> (r: Identifier)
        ensures
            r@ == self@,
    {
        proof {
            use_type_invariant(self);
        }
        Identifier { value: self.value.clone() }
    }
}

impl PartialEq for Identifier {
    fn eq(&self, other: &Identifier) -> (r: bool) {
        self.value == other.value
    }
}

impl PartialEqSpecImpl for Identifier {
    open spec fn obeys_eq_spec() -> bool {
        true
    }

    open spec fn eq_spec(&self, other: &Identifier) -> bool {
        self@ == other@
    }
}

impl Eq for Identifier {

}

/// Checks a text and folds it into its canonical form.
pub fn normalize(value: &str) -> (r: Option<String>)
    ensures
        match r {
            Some(s) => normalized(value@) == Some(s@),
            None => normalized(value@).is_none(),
        },
{
    let chars = chars_of(value);
    let n: usize = chars.len();
    if n == 0 {
        return None;
    }
    let first: char = chars[0];
    if ('0' <= first && first <= '9') || first == ' ' {
        return None;
    }
    let mut folded: Vec<char> = Vec::new();
    let mut i: usize = 0;
    while i < n
        invariant
            n == chars@.len(),
            chars@ == value@,
            i <= n,
            folded@.len() == i,
            forall|j: int| 0 <= j < i ==> is_name_char(#[trigger] chars@[j]),
            forall|j: int| 0 <= j < i ==> folded@[j] == lower_of(chars@[j]),
        decreases n - i,
    {
        let c: char = chars[i];
        let allowed: bool = ('a' <= c && c <= 'z') || ('A' <= c && c <= 'Z') || ('0' <= c && c
            <= '9') || c == '_' || c == ' ';
        if !allowed {
            return None;
        }
        folded.push(to_lower(c));
        i = i + 1;
    }
    proof {
        assert(folded@ =~= fold_case(value@));
    }
    Some(string_of(folded.as_slice()))
}

} // verus!
