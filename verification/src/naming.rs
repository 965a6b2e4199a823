//! Naming rules for `api_name`s: PascalCase for object types, camelCase for
//! properties, snake_case for datasets. Each rule is checked by the `regex`
//! crate against the pattern below and is stated exactly by a spec function.

use vstd::prelude::*;

verus! {

/// Property / LinkType / ActionType / parameter api_name: camelCase, first word lower case.
pub const PROPERTY_API_NAME_PATTERN: &'static str = "^[a-z][a-zA-Z0-9]{0,99}$";
/// ObjectType / Ontology / ObjectTypeGroup api_name: PascalCase, first letter upper case.
pub const OBJECT_TYPE_API_NAME_PATTERN: &'static str = "^[A-Z][a-zA-Z0-9]{0,99}$";
/// Dataset / DataSource / Credential api_name: snake_case, all lower case.
pub const DATASET_API_NAME_PATTERN: &'static str = "^[a-z][a-z0-9_]{0,99}$";

pub open spec fn is_ascii_upper(c: char) -> bool {
    'A' <= c && c <= 'Z'
}

pub open spec fn is_ascii_lower(c: char) -> bool {
    'a' <= c && c <= 'z'
}

pub open spec fn is_ascii_digit(c: char) -> bool {
    '0' <= c && c <= '9'
}

pub open spec fn is_ascii_alnum(c: char) -> bool {
    is_ascii_upper(c) || is_ascii_lower(c) || is_ascii_digit(c)
}

pub open spec fn is_snake_char(c: char) -> bool {
    is_ascii_lower(c) || is_ascii_digit(c) || c == '_'
}

/// `^[A-Z][a-zA-Z0-9]{0,99}$`: 1 to 100 characters, an upper-case ASCII letter
/// first, ASCII letters and digits after it.
pub open spec fn spec_object_type_api_name(s: Seq<char>) -> bool {
    &&& 1 <= s.len() <= 100
    &&& is_ascii_upper(s[0])
    &&& forall|i: int| 1 <= i < s.len() ==> is_ascii_alnum(#[trigger] s[i])
}

/// `^[a-z][a-zA-Z0-9]{0,99}$`: 1 to 100 characters, a lower-case ASCII letter
/// first, ASCII letters and digits after it.
pub open spec fn spec_property_api_name(s: Seq<char>) -> bool {
    &&& 1 <= s.len() <= 100
    &&& is_ascii_lower(s[0])
    &&& forall|i: int| 1 <= i < s.len() ==> is_ascii_alnum(#[trigger] s[i])
}

/// `^[a-z][a-z0-9_]{0,99}$`: 1 to 100 characters, a lower-case ASCII letter
/// first, lower-case letters, digits and `_` after it.
pub open spec fn spec_dataset_api_name(s: Seq<char>) -> bool {
    &&& 1 <= s.len() <= 100
    &&& is_ascii_lower(s[0])
    &&& forall|i: int| 1 <= i < s.len() ==> is_snake_char(#[trigger] s[i])
}

/// What `regex::Regex::is_match` answers for a compiled pattern and a haystack.
pub uninterp spec fn regex_matches(pattern: Seq<char>, haystack: Seq<char>) -> bool;

/// Compiles `pattern` with `regex::Regex::new` and tests `haystack` with
/// `Regex::is_match`; `None` when the pattern does not compile.
/// Claimed: a `Some` answer is the named regex result; for the three anchored
/// patterns of this module (whose syntax the regex crate documents: `^`/`$`
/// anchor the whole haystack, `[..]` is an ASCII class, `{0,99}` a bounded
/// repetition) the pattern compiles and the answer is the spec function above.
#[verifier::external_body]
fn regex_is_match(pattern: &str, haystack: &str) -> (r: Option<bool>)
    ensures
        r matches Some(b) ==> b == regex_matches(pattern@, haystack@),
        pattern@ == OBJECT_TYPE_API_NAME_PATTERN@ ==> r == Some(spec_object_type_api_name(haystack@)),
        pattern@ == PROPERTY_API_NAME_PATTERN@ ==> r == Some(spec_property_api_name(haystack@)),
        pattern@ == DATASET_API_NAME_PATTERN@ ==> r == Some(spec_dataset_api_name(haystack@)),
{
    match regex::Regex::new(pattern) {
        Ok(re) => Some(re.is_match(haystack)),
        Err(_) => None,
    }
}

/// Checks an ObjectType / Ontology / ObjectTypeGroup api_name (PascalCase).
pub fn is_valid_object_type_api_name(s: &str) -> (r: bool)
    ensures
        r == spec_object_type_api_name(s@),
{
    match regex_is_match(OBJECT_TYPE_API_NAME_PATTERN, s) {
        Some(b) => b,
        None => false,
    }
}

/// Checks a Property / LinkType / ActionType / parameter api_name (camelCase).
pub fn is_valid_property_api_name(s: &str) -> (r: bool)
    ensures
        r == spec_property_api_name(s@),
{
    match regex_is_match(PROPERTY_API_NAME_PATTERN, s) {
        Some(b) => b,
        None => false,
    }
}

/// Checks a Dataset / DataSource / Credential api_name (snake_case).
pub fn is_valid_dataset_api_name(s: &str) -> (r: bool)
    ensures
        r == spec_dataset_api_name(s@),
{
    match regex_is_match(DATASET_API_NAME_PATTERN, s) {
        Some(b) => b,
        None => false,
    }
}

/// A PascalCase name is never a camelCase or snake_case name, and no name is
/// both camelCase and snake_case unless it uses lower-case letters and digits only.
pub proof fn law_naming_styles_disjoint(s: Seq<char>)
    ensures
        spec_object_type_api_name(s) ==> !spec_property_api_name(s) && !spec_dataset_api_name(s),
        spec_property_api_name(s) && spec_dataset_api_name(s) ==> forall|i: int|
            0 <= i < s.len() ==> is_ascii_lower(#[trigger] s[i]) || is_ascii_digit(s[i]),
{
    if spec_property_api_name(s) && spec_dataset_api_name(s) {
        assert forall|i: int| 0 <= i < s.len() implies is_ascii_lower(#[trigger] s[i])
            || is_ascii_digit(s[i]) by {
            if i > 0 {
                assert(is_snake_char(s[i]));
                assert(is_ascii_alnum(s[i]));
            }
        }
    }
}

} // verus!
