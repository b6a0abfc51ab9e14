use vstd::prelude::*;

verus! {

/// The ASCII lower-case form of one character: `A`..=`Z` become `a`..=`z`,
/// every other character stays as it is.
pub open spec fn ascii_lower_char(c: char) -> char {
    if 'A' <= c && c <= 'Z' {
        ((c as u32) + 32) as char
    } else {
        c
    }
}

/// The ASCII upper-case form of one character.
pub open spec fn ascii_upper_char(c: char) -> char {
    if 'a' <= c && c <= 'z' {
        ((c as u32) - 32) as char
    } else {
        c
    }
}

pub open spec fn ascii_lower(s: Seq<char>) -> Seq<char> {
    Seq::new(s.len(), |i: int| ascii_lower_char(s[i]))
}

pub open spec fn ascii_upper(s: Seq<char>) -> Seq<char> {
    Seq::new(s.len(), |i: int| ascii_upper_char(s[i]))
}

pub open spec fn all_ascii(s: Seq<char>) -> bool {
    vstd::utf8::is_ascii_chars(s)
}

/// What `str::to_lowercase` returns: full Unicode lower-casing.
pub uninterp spec fn lower_of(s: Seq<char>) -> Seq<char>;

/// The canonical form of a hardware-address string: its lower-case form.
/// On ASCII text this is the ASCII lower-casing.
pub open spec fn canonical(s: Seq<char>) -> Seq<char> {
    if all_ascii(s) {
        ascii_lower(s)
    } else {
        lower_of(s)
    }
}

/// Relies on `str::to_ascii_lowercase`: `A`..=`Z` are mapped to `a`..=`z`,
/// every other character is kept.
#[verifier::external_body]
fn ascii_lowercase(s: &str) -> (r: String)
    ensures
        r@ == ascii_lower(s@),
{
    s.to_ascii_lowercase()
}

/// Relies on `str::to_lowercase`: the result depends on the characters alone.
#[verifier::external_body]
fn unicode_lowercase(s: &str) -> (r: String)
    ensures
        r@ == lower_of(s@),
{
    s.to_lowercase()
}

/// A link-layer (hardware) address, held in lower case so that two spellings
/// that differ only in case are equal.
#[derive(Debug, Hash)]
pub struct LlAddr(String);

impl View for LlAddr {
    type V = Seq<char>;

    closed spec fn view(&self) -> Seq<char> {
        self.0@
    }
}

impl LlAddr {
    /// Builds the canonical (lower-case) address from any spelling of it.
    pub fn from_string(s: String) -> (r: LlAddr)
        ensures
            r@ == canonical(s@),
    {
        let text = s.as_str();
        if text.is_ascii() {
            LlAddr(ascii_lowercase(text))
        } else {
            LlAddr(unicode_lowercase(text))
        }
    }

    /// The canonical text of the address.
    pub fn as_str(&self) -> (r: &str)
        ensures
            r@ == self@,
    {
        self.0.as_str()
    }
}

impl PartialEq for LlAddr {
    fn eq(&self, other: &LlAddr) -> (r: bool) {
        self.0 == other.0
    }
}

impl vstd::std_specs::cmp::PartialEqSpecImpl for LlAddr {
    open spec fn obeys_eq_spec() -> bool {
        true
    }

    open spec fn eq_spec(&self, other: &LlAddr) -> bool {
        self@ == other@
    }
}

impl Clone for LlAddr {
    fn clone(&self) -> (r: LlAddr)
        ensures
            r@ == self@,
    {
        LlAddr(self.0.clone())
    }
}

impl Eq for LlAddr {
}

/// Equality of link-layer addresses ignores case: on ASCII text, a spelling,
/// its lower-case form and its upper-case form all have the same canonical
/// form.
pub proof fn lemma_canonical_ignores_case(s: Seq<char>)
    requires
        all_ascii(s),
    ensures
        canonical(s) == canonical(ascii_lower(s)),
        canonical(s) == canonical(ascii_upper(s)),
{
    assert(all_ascii(ascii_lower(s)));
    assert(all_ascii(ascii_upper(s)));
    assert(ascii_lower(ascii_lower(s)) =~= ascii_lower(s));
    assert(ascii_lower(ascii_upper(s)) =~= ascii_lower(s));
}

} // verus!
