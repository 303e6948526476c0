//! Small text utilities: string equality with a specification, and the
//! case/whitespace normalisation that version lookup is built on.
use vstd::prelude::*;

verus! {

/// Equality of two string slices, stated over their character views.
pub fn str_eq(a: &str, b: &str) -> (r: bool)
    ensures
        r == (a@ == b@),
{
    let owned_a: String = a.to_owned();
    let owned_b: String = b.to_owned();
    owned_a == owned_b
}

/// What `str::trim` returns: the input with leading and trailing
/// whitespace removed. It depends on the characters alone.
pub uninterp spec fn trimmed(s: Seq<char>) -> Seq<char>;

/// What `str::to_lowercase` returns. It depends on the characters alone.
pub uninterp spec fn lower_of(s: Seq<char>) -> Seq<char>;

/// Relies on `str::trim`: strips leading and trailing Unicode whitespace;
/// the result is a function of the characters alone.
#[verifier::external_body]
fn trim_str<'a>(s: &'a str) -> (r: &'a str)
    ensures
        r@ == trimmed(s@),
{
    s.trim()
}

/// Relies on `str::to_lowercase`: Unicode lowercasing; the result is a
/// function of the characters alone.
#[verifier::external_body]
fn lowercase_str(s: &str) -> (r: String)
    ensures
        r@ == lower_of(s@),
{
    s.to_lowercase()
}

/// The canonical form under which version ids are compared: trimmed,
/// then lowercased.
pub open spec fn canon(s: Seq<char>) -> Seq<char> {
    lower_of(trimmed(s))
}

/// The canonical form of a version id, as a value.
pub fn canonical_version_id(s: &str) -> (r: String)
    ensures
        r@ == canon(s@),
{
    let t: &str = trim_str(s);
    lowercase_str(t)
}

} // verus!
