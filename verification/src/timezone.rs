//! A time zone identifier value object: the `Area/Location` shape of an IANA
//! name, checked character by character. Whether the name denotes a real zone
//! is a caller's concern; only the format is validated here.

use vstd::prelude::*;
use vstd::string::StrSliceExecFns;
use crate::text::{is_trim_of, lemma_trim_unique};

verus! {

/// Characters an identifier may hold: ASCII letters and digits, underscore,
/// slash, hyphen, plus.
pub open spec fn spec_is_tz_char(c: char) -> bool {
    ('a' <= c <= 'z') || ('A' <= c <= 'Z') || ('0' <= c <= '9') || c == '_' || c == '/' || c == '-'
        || c == '+'
}

/// Whether `t` contains two slashes side by side.
pub open spec fn has_double_slash(t: Seq<char>) -> bool {
    exists|i: int| 0 <= i < t.len() - 1 && #[trigger] t[i] == '/' && t[i + 1] == '/'
}

/// A trimmed identifier that passes every format rule: non-empty, holds a
/// slash, neither starts nor ends with one, uses only identifier characters,
/// and has no empty part.
pub open spec fn spec_tz_valid(t: Seq<char>) -> bool {
    &&& t.len() > 0
    &&& t.contains('/')
    &&& t[0] != '/'
    &&& t[t.len() - 1] != '/'
    &&& (forall|i: int| 0 <= i < t.len() ==> spec_is_tz_char(#[trigger] t[i]))
    &&& !has_double_slash(t)
}

/// An IANA time zone identifier in `Area/Location` format.
#[derive(Debug, Clone, PartialEq, Eq, Hash)]
pub struct Timezone {
    identifier: String,
}

impl View for Timezone {
    type V = Seq<char>;

    closed spec fn view(&self) -> Seq<char> {
        self.identifier@
    }
}

/// Why an identifier was rejected.
#[derive(Debug, Clone, PartialEq, Eq)]
pub enum TimezoneError {
    /// The identifier is empty or holds only whitespace.
    EmptyIdentifier,
    /// The identifier has no slash, so no `Area/Location` split.
    MissingAreaSeparator(String),
    /// The identifier starts or ends with a slash, or has an empty part.
    InvalidFormat(String),
    /// The identifier holds a character outside the accepted set.
    InvalidCharacters(String),
}

/// What `Timezone::new` returns for an input whose trimmed form is `t`:
/// the first failed rule decides the error, and success carries `t`.
pub open spec fn spec_tz_outcome(
    r: Result<Timezone, TimezoneError>,
    t: Seq<char>,
    s: Seq<char>,
) -> bool {
    match r {
        Ok(tz) => tz@ == t && spec_tz_valid(t),
        Err(e) => match e {
            TimezoneError::EmptyIdentifier => t.len() == 0,
            TimezoneError::MissingAreaSeparator(orig) => {
                &&& orig@ == s
                &&& t.len() > 0
                &&& !t.contains('/')
            },
            TimezoneError::InvalidFormat(orig) => {
                &&& orig@ == s
                &&& t.len() > 0
                &&& t.contains('/')
                &&& {
                    ||| t[0] == '/'
                    ||| t[t.len() - 1] == '/'
                    ||| (t[0] != '/' && t[t.len() - 1] != '/' && (forall|i: int|
                        0 <= i < t.len() ==> spec_is_tz_char(#[trigger] t[i])) && has_double_slash(
                        t,
                    ))
                }
            },
            TimezoneError::InvalidCharacters(orig) => {
                &&& orig@ == s
                &&& t.len() > 0
                &&& t.contains('/')
                &&& t[0] != '/'
                &&& t[t.len() - 1] != '/'
                &&& exists|i: int| 0 <= i < t.len() && !spec_is_tz_char(#[trigger] t[i])
            },
        },
    }
}

impl Timezone {
    /// Builds a `Timezone` from an identifier, trimming surrounding
    /// whitespace and checking the `Area/Location` format. The outcome is
    /// determined by the trimmed identifier: the first failed rule names the
    /// error, and on success the value holds exactly the trimmed text.
    pub fn new(identifier: String) -> (r: Result<Timezone, TimezoneError>)
        ensures
            forall|t: Seq<char>| is_trim_of(t, identifier@) ==> spec_tz_outcome(r, t, identifier@),
    {
        let ghost sg: Seq<char> = identifier@;
        let s: &str = identifier.as_str();
        let t: &str = crate::text::trim(s);
        let ghost tg: Seq<char> = t@;
        proof {
            assert forall|t1: Seq<char>| is_trim_of(t1, sg) implies t1 == tg by {
                lemma_trim_unique(sg, t1, tg);
            }
        }
        let m: usize = t.unicode_len();

        if m == 0 {
            return Err(TimezoneError::EmptyIdentifier);
        }

        let mut has_slash: bool = false;
        let mut j: usize = 0;
        while j < m
            invariant
                0 <= j <= m,
                m == tg.len(),
                t@ == tg,
                has_slash == exists|i: int| 0 <= i < j && tg[i] == '/',
            decreases m - j,
        {
            if t.get_char(j) == '/' {
                has_slash = true;
            }
            j = j + 1;
        }
        if !has_slash {
            assert(!tg.contains('/'));
            return Err(TimezoneError::MissingAreaSeparator(identifier));
        }
        assert(tg.contains('/'));

        if t.get_char(0) == '/' || t.get_char(m - 1) == '/' {
            return Err(TimezoneError::InvalidFormat(identifier));
        }

        let mut all_ok: bool = true;
        let mut j: usize = 0;
        while j < m
            invariant
                0 <= j <= m,
                m == tg.len(),
                t@ == tg,
                all_ok == forall|i: int| 0 <= i < j ==> spec_is_tz_char(#[trigger] tg[i]),
            decreases m - j,
        {
            if !is_tz_char(t.get_char(j)) {
                all_ok = false;
            }
            j = j + 1;
        }
        if !all_ok {
            return Err(TimezoneError::InvalidCharacters(identifier));
        }

        let mut dbl: bool = false;
        let mut j: usize = 0;
        while j < m - 1
            invariant
                0 <= j,
                j <= m,
                1 <= m,
                m == tg.len(),
                t@ == tg,
                dbl == exists|i: int|
                    0 <= i < j && i < tg.len() - 1 && #[trigger] tg[i] == '/' && tg[i + 1] == '/',
            decreases m - j,
        {
            if t.get_char(j) == '/' && t.get_char(j + 1) == '/' {
                dbl = true;
            }
            j = j + 1;
        }
        if dbl {
            return Err(TimezoneError::InvalidFormat(identifier));
        }
        assert(!has_double_slash(tg));

        Ok(Timezone { identifier: t.to_owned() })
    }

    /// The identifier as a string slice.
    pub fn as_str(&self) -> (s: &str)
        ensures
            s@ == self@,
    {
        self.identifier.as_str()
    }

    /// The identifier as an owned string.
    pub fn into_string(self) -> (s: String)
        ensures
            s@ == self@,
    {
        self.identifier
    }
}

/// Characters an identifier may hold.
fn is_tz_char(c: char) -> (r: bool)
    ensures
        r == spec_is_tz_char(c),
{
    ('a' <= c && c <= 'z') || ('A' <= c && c <= 'Z') || ('0' <= c && c <= '9') || c == '_' || c
        == '/' || c == '-' || c == '+'
}

} // verus!
