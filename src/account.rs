use vstd::prelude::*;

verus! {

/// `-`, `_` and `.` join the parts of an account id.
pub open spec fn is_separator(c: char) -> bool {
    c == '-' || c == '_' || c == '.'
}

/// The characters an account id may hold: lower-case ASCII letters, digits
/// and separators.
pub open spec fn is_account_char(c: char) -> bool {
    ('a' <= c && c <= 'z') || ('0' <= c && c <= '9') || is_separator(c)
}

/// A well-formed account id: 2 to 64 allowed characters, neither starting
/// nor ending with a separator, with no two separators in a row.
pub open spec fn is_valid_account(s: Seq<char>) -> bool {
    &&& 2 <= s.len() <= 64
    &&& forall|i: int| 0 <= i < s.len() ==> is_account_char(#[trigger] s[i])
    &&& !is_separator(s[0])
    &&& !is_separator(s.last())
    &&& forall|i: int|
        0 <= i < s.len() - 1 ==> !(is_separator(#[trigger] s[i]) && is_separator(s[i + 1]))
}

/// Relies on `near_sdk::env::is_valid_account_id`, which checks the id's bytes
/// for the rules above: a length of 2 to 64, only `a-z`, `0-9`, `-`, `_` and
/// `.`, no separator first or last and none right after another. A byte
/// outside ASCII is refused, so the rules read the same over characters.
#[verifier::external_body]
pub(crate) fn account_id_is_valid(s: &str) -> (r: bool)
    ensures
        r == is_valid_account(s@),
{
    near_sdk::env::is_valid_account_id(s.as_bytes())
}

} // verus!
