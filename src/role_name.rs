//! Role names: the only identifiers from which state paths are derived.
use vstd::prelude::*;
use vstd::string::StringExecFns;

verus! {

/// A character that may appear in a role name: a lowercase ASCII letter,
/// an ASCII digit or a hyphen.
pub open spec fn is_role_name_char(c: char) -> bool {
    ('a' <= c && c <= 'z') || ('0' <= c && c <= '9') || c == '-'
}

/// A role name is nonempty, made only of role-name characters, and neither
/// starts nor ends with a hyphen.
pub open spec fn valid_role_name(s: Seq<char>) -> bool {
    &&& s.len() > 0
    &&& s[0] != '-'
    &&& s.last() != '-'
    &&& forall|i: int| 0 <= i < s.len() ==> #[trigger] is_role_name_char(s[i])
}

/// The message that rejects `name`.
pub open spec fn invalid_role_name_message(name: Seq<char>) -> Seq<char> {
    "Invalid role name: "@ + name + ". Use lowercase letters, numbers, and hyphens."@
}

fn role_name_char(c: char) -> (r: bool)
    ensures
        r == is_role_name_char(c),
{
    ('a' <= c && c <= 'z') || ('0' <= c && c <= '9') || c == '-'
}

fn invalid_role_name_error(name: &str) -> (r: String)
    ensures
        r@ == invalid_role_name_message(name@),
{
    let mut message = String::from_str("Invalid role name: ");
    message.append(name);
    message.append(". Use lowercase letters, numbers, and hyphens.");
    message
}

/// Whether `name` is a well-formed role name.
pub fn is_valid_role_name(name: &str) -> (r: bool)
    ensures
        r == valid_role_name(name@),
{
    let ghost s = name@;
    let mut all_allowed = true;
    let mut first: Option<char> = None;
    let mut last: Option<char> = None;
    for c in it: name.chars()
        invariant
            it.seq() == s,
            all_allowed <==> forall|j: int| 0 <= j < it.index() ==> #[trigger] is_role_name_char(s[j]),
            it.index() == 0 ==> first is None && last is None,
            it.index() > 0 ==> first == Some(s[0]) && last == Some(s[it.index() - 1]),
    {
        if first.is_none() {
            first = Some(c);
        }
        last = Some(c);
        all_allowed = all_allowed && role_name_char(c);
    }
    match (first, last) {
        (Some(f), Some(l)) => all_allowed && f != '-' && l != '-',
        _ => false,
    }
}

/// Accepts a well-formed role name; otherwise returns the message that
/// rejects it.
pub fn validate_role_name(name: &str) -> (r: Result<(), String>)
    ensures
        r is Ok <==> valid_role_name(name@),
        r matches Err(m) ==> m@ == invalid_role_name_message(name@),
{
    if is_valid_role_name(name) {
        Ok(())
    } else {
        Err(invalid_role_name_error(name))
    }
}

} // verus!
