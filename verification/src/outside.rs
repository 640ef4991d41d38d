//! What is taken from outside on trust: functions of the standard library that
//! have no specification of their own, and the outside crates.
use vstd::prelude::*;
use vstd::utf8::encode_utf8;

use crate::json::{Json, Level};

verus! {

/// `String::push` appends the character to the end of the string.
pub assume_specification[ String::push ](s: &mut String, c: char)
    ensures
        final(s)@ == old(s)@.push(c),
;

/// What `String::from_utf8_lossy` makes of some bytes.
pub uninterp spec fn utf8_lossy(b: Seq<u8>) -> Seq<char>;

/// `String::from_utf8_lossy`: the text that the bytes encode, with a
/// replacement character for what is no UTF-8. That it depends on the bytes
/// alone, that it is the text which the bytes are the UTF-8 of, where they are
/// any, and that ASCII bytes are the characters of the same numbers, is said
/// here; where replacement characters stand is not.
#[verifier::external_body]
pub(crate) fn text_of_bytes(b: &[u8]) -> (r: String)
    ensures
        r@ == utf8_lossy(b@),
        forall|s: Seq<char>| #[trigger] encode_utf8(s) == b@ ==> r@ == s,
        (forall|i: int| 0 <= i < b@.len() ==> b@[i] < 128) ==> r@ == b@.map_values(
            |x: u8| x as char,
        ),
{
    String::from_utf8_lossy(b).into_owned()
}

/// What `String::from_utf16_lossy` makes of some UTF-16 units.
pub uninterp spec fn utf16_lossy(b: Seq<u16>) -> Seq<char>;

/// `String::from_utf16_lossy`: the text that the units encode, with a
/// replacement character for what is no UTF-16. Only that it depends on the
/// units alone, and that ASCII units are the characters of the same numbers, is
/// said here.
#[verifier::external_body]
pub(crate) fn text_of_units(b: &[u16]) -> (r: String)
    ensures
        r@ == utf16_lossy(b@),
        (forall|i: int| 0 <= i < b@.len() ==> b@[i] < 128) ==> r@ == b@.map_values(
            |x: u16| x as char,
        ),
{
    String::from_utf16_lossy(b)
}

/// What the first group of a pattern holds in each match.
pub open spec fn group_texts(v: Seq<Option<String>>) -> Seq<Option<Seq<char>>> {
    v.map_values(
        |o: Option<String>|
            match o {
                Some(s) => Some(s@),
                None => None::<Seq<char>>,
            },
    )
}

/// The first group of each match of a pattern in a text, as the crate `regex`
/// finds them; nothing where the pattern is no regular expression.
pub uninterp spec fn regex_groups(pattern: Seq<char>, text: Seq<char>) -> Option<
    Seq<Option<Seq<char>>>,
>;

/// `regex::Regex::new` and `Regex::captures_iter`: for each match, from left to
/// right and none overlapping another, the text of the first group, where the
/// group took part in the match. Which matches there are is not said here.
#[verifier::external_body]
pub(crate) fn find_groups(pattern: &str, text: &str) -> (r: Option<Vec<Option<String>>>)
    ensures
        match r {
            Some(v) => regex_groups(pattern@, text@) == Some(group_texts(v@)),
            None => regex_groups(pattern@, text@) is None,
        },
{
    let re = regex::Regex::new(pattern).ok()?;
    Some(re.captures_iter(text).map(|c| c.get(1).map(|m| m.as_str().to_owned())).collect())
}

/// A text with each match of a pattern replaced, as the crate `regex` does it;
/// nothing where the pattern is no regular expression.
pub uninterp spec fn regex_replaced(
    pattern: Seq<char>,
    text: Seq<char>,
    by: Seq<char>,
) -> Option<Seq<char>>;

/// `regex::Regex::new` and `Regex::replace_all`: each match gives way to `by`,
/// in which `$1` stands for the first group. Which matches there are is not said
/// here.
#[verifier::external_body]
pub(crate) fn replace_matches(pattern: &str, text: &str, by: &str) -> (r: Option<String>)
    ensures
        match r {
            Some(s) => regex_replaced(pattern@, text@, by@) == Some(s@),
            None => regex_replaced(pattern@, text@, by@) is None,
        },
{
    let re = regex::Regex::new(pattern).ok()?;
    Some(re.replace_all(text, by).into_owned())
}

/// A character that means something in a pattern.
pub open spec fn is_meta(c: char) -> bool {
    ||| c == '\\' || c == '.' || c == '+' || c == '*' || c == '?' || c == '('
    ||| c == ')' || c == '|' || c == '[' || c == ']' || c == '{' || c == '}'
    ||| c == '^' || c == '$' || c == '#' || c == '&' || c == '-' || c == '~'
}

/// The pattern of a literal text: a backslash before each character that means
/// something in a pattern.
pub open spec fn literal(s: Seq<char>) -> Seq<char>
    decreases s.len(),
{
    if s.len() == 0 {
        Seq::empty()
    } else {
        literal(s.drop_last()) + (if is_meta(s.last()) {
            seq!['\\', s.last()]
        } else {
            seq![s.last()]
        })
    }
}

/// `regex::escape`: the text with a backslash before each meta character.
#[verifier::external_body]
pub(crate) fn escape_pattern(s: &str) -> (r: String)
    ensures
        r@ == literal(s@),
{
    regex::escape(s)
}

/// What a JSON text holds, as the crate `serde_json` reads it.
pub uninterp spec fn json_level(text: Seq<char>) -> Level;

/// `serde_json::from_str` into a `serde_json::Value`: the value's outer level,
/// with what lies in an array or an object as the JSON text that
/// `Value::to_string` gives. The names of an object come in the order of its map.
/// That the result depends on the text alone is all that is said here.
#[verifier::external_body]
pub(crate) fn read_level(text: &str) -> (r: Json)
    ensures
        r@ == json_level(text@),
{
    match serde_json::from_str::<serde_json::Value>(text) {
        Err(_) => Json::Invalid,
        Ok(serde_json::Value::Null) => Json::Null,
        Ok(serde_json::Value::Bool(b)) => Json::Bool(b),
        Ok(serde_json::Value::Number(n)) => Json::Number(n.as_u64()),
        Ok(serde_json::Value::String(s)) => Json::Text(s),
        Ok(serde_json::Value::Array(a)) => Json::Array(a.iter().map(|v| v.to_string()).collect()),
        Ok(serde_json::Value::Object(o)) => Json::Object(
            o.into_iter().map(|(k, v)| (k, v.to_string())).collect(),
        ),
    }
}

} // verus!
