//! The calls into `regex`, `sanitize_filename`, `json` and the one std
//! conversion that vstd does not specify. Nothing in this file is proved:
//! each contract is taken from the source of the function it names.

use vstd::prelude::*;

verus! {

/// What `Regex::replace_all` leaves of `text` when every match of `pattern`
/// is replaced by nothing; `None` where `pattern` does not compile.
pub uninterp spec fn matches_removed(pattern: Seq<char>, text: Seq<char>) -> Option<Seq<char>>;

/// What `Regex::find` reports as the leftmost match of `pattern` in `text`;
/// `None` where there is none or `pattern` does not compile.
pub uninterp spec fn leftmost_match(pattern: Seq<char>, text: Seq<char>) -> Option<Seq<char>>;

/// The document that `json::parse` reads from `source`; `None` where it
/// reports an error.
pub uninterp spec fn json_document(source: Seq<char>) -> Option<json::JsonValue>;

/// The member that indexing a `JsonValue` by `key` yields.
pub uninterp spec fn json_member(value: json::JsonValue, key: Seq<char>) -> json::JsonValue;

/// What `JsonValue::as_str` yields.
pub uninterp spec fn json_text(value: json::JsonValue) -> Option<Seq<char>>;

/// What `JsonValue::as_u64` yields.
pub uninterp spec fn json_count(value: json::JsonValue) -> Option<u64>;

/// What `JsonValue::as_bool` yields.
pub uninterp spec fn json_flag(value: json::JsonValue) -> Option<bool>;

/// The members that `JsonValue::members` walks, in its order.
pub uninterp spec fn json_items(value: json::JsonValue) -> Seq<json::JsonValue>;

/// What `JsonValue::is_array` yields.
pub uninterp spec fn json_is_list(value: json::JsonValue) -> bool;

/// A parsed JSON value of the `json` crate; opaque here.
#[verifier::external_type_specification]
#[verifier::external_body]
pub struct ExJsonValue(json::JsonValue);

/// The view of an optional string.
pub open spec fn text_of(s: Option<String>) -> Option<Seq<char>> {
    match s {
        Some(t) => Some(t@),
        None => None,
    }
}

/// `regex::Regex::new` on `pattern`, then `Regex::replace_all` on `text`
/// with the empty replacement. The result is only named: the grammar of
/// patterns is the crate's.
#[verifier::external_body]
pub(crate) fn remove_matches(pattern: &str, text: &str) -> (out: Option<String>)
    ensures
        text_of(out) == matches_removed(pattern@, text@),
{
    match regex::Regex::new(pattern) {
        Ok(re) => Some(re.replace_all(text, "").into_owned()),
        Err(_) => None,
    }
}

/// `regex::Regex::new` on `pattern`, then `Regex::find` on `text`, the
/// match copied out with `Match::as_str`. The result is only named.
#[verifier::external_body]
pub(crate) fn first_match(pattern: &str, text: &str) -> (out: Option<String>)
    ensures
        text_of(out) == leftmost_match(pattern@, text@),
{
    match regex::Regex::new(pattern) {
        Ok(re) => re.find(text).map(|m| m.as_str().to_owned()),
        Err(_) => None,
    }
}

/// Whether `c` is one of the characters that `sanitize_filename` removes
/// wherever it stands: `/ ? < > \ : * | "` and the control characters
/// U+0000..=U+001F and U+0080..=U+009F.
pub open spec fn unfit_for_names(c: char) -> bool {
    c == '/' || c == '?' || c == '<' || c == '>' || c == '\\' || c == ':' || c == '*' || c == '|'
        || c == '"' || (c as u32) <= 0x1f || (0x80 <= (c as u32) && (c as u32) <= 0x9f)
}

/// `name` without the characters that are `unfit_for_names`.
pub open spec fn fit_part(name: Seq<char>) -> Seq<char> {
    name.filter(|c: char| !unfit_for_names(c))
}

/// The longest front part of `name` that takes at most `limit` bytes of
/// UTF-8.
pub open spec fn cut_to(name: Seq<char>, limit: nat) -> Seq<char>
    decreases name.len(),
{
    if name.len() == 0 || vstd::utf8::encode_utf8(name).len() <= limit {
        name
    } else {
        cut_to(name.drop_last(), limit)
    }
}

/// `name` is made of dots and of nothing else.
pub open spec fn dots_only(name: Seq<char>) -> bool {
    name.len() > 0 && forall|i: int| 0 <= i < name.len() ==> name[i] == '.'
}

/// `c` may count as the small letter `letter` where case is ignored: it is
/// that letter, its capital, or a character outside ASCII.
pub open spec fn like_letter(c: char, letter: char) -> bool {
    c == letter || (c as u32) + 32 == (letter as u32) || (c as u32) >= 0x80
}

/// `c` may count as a digit: it is one of `0` to `9`, or a character
/// outside ASCII.
pub open spec fn like_digit(c: char) -> bool {
    (0x30 <= (c as u32) && (c as u32) <= 0x39) || (c as u32) >= 0x80
}

/// `name` begins with three characters that may count as `a`, `b`, `c`.
pub open spec fn begins_like(name: Seq<char>, a: char, b: char, c: char) -> bool {
    name.len() >= 3 && like_letter(name[0], a) && like_letter(name[1], b) && like_letter(
        name[2],
        c,
    )
}

/// `name` may be one that Windows keeps for a device: `con`, `prn`, `aux`,
/// `nul`, or `com` or `lpt` with a digit, in any case, alone or with a dot
/// behind it. Every name that `sanitize_filename` empties on Windows for
/// this reason is such a name.
pub open spec fn may_be_device(name: Seq<char>) -> bool {
    ||| (begins_like(name, 'c', 'o', 'n') || begins_like(name, 'p', 'r', 'n') || begins_like(
        name,
        'a',
        'u',
        'x',
    ) || begins_like(name, 'n', 'u', 'l')) && (name.len() == 3 || name[3] == '.')
    ||| (begins_like(name, 'c', 'o', 'm') || begins_like(name, 'l', 'p', 't')) && name.len() >= 4
        && like_digit(name[3]) && (name.len() == 4 || name[4] == '.')
}

/// `sanitize_filename::sanitize`. It deletes every character that is
/// `unfit_for_names`. What is left it empties if it is made of dots only,
/// and on Windows also if it is the name of a device; then it cuts it to at
/// most 255 bytes of UTF-8, between two characters. So a name of dots comes
/// out empty, a name that is neither that nor the name of a device comes
/// out cut and no more, and the name of a device comes out either way,
/// depending on the platform.
#[verifier::external_body]
pub(crate) fn sanitize(name: &str) -> (out: String)
    ensures
        out@ == Seq::<char>::empty() || out@ == cut_to(fit_part(name@), 255),
        dots_only(fit_part(name@)) ==> out@ == Seq::<char>::empty(),
        !dots_only(fit_part(name@)) && !may_be_device(fit_part(name@)) ==> out@ == cut_to(
            fit_part(name@),
            255,
        ),
{
    sanitize_filename::sanitize(name)
}

/// `c` is one of the digits `0` to `9`.
pub open spec fn is_digit(c: char) -> bool {
    0x30 <= (c as u32) && (c as u32) <= 0x39
}

/// The number of digits that stand in a row directly before the place `k`
/// of `s`.
pub open spec fn digits_before(s: Seq<char>, k: int) -> nat
    decreases k,
{
    if 0 < k <= s.len() && is_digit(s[k - 1]) {
        digits_before(s, k - 1) + 1
    } else {
        0
    }
}

/// Nowhere in `s` do more than `limit` digits stand in a row.
pub open spec fn digit_runs_within(s: Seq<char>, limit: nat) -> bool {
    forall|k: int| 0 <= k <= s.len() ==> #[trigger] digits_before(s, k) <= limit
}

/// The longest run of digits that `json::parse` is handed here.
pub open spec fn longest_run() -> nat {
    32767
}

/// `json::parse`: the document, or `None` for any `json::Error`. The parser
/// counts the digits of a fraction in 16 bits and does not guard the count:
/// a text with more digits in a row than such a count holds is kept from
/// it.
#[verifier::external_body]
pub(crate) fn parse_json(source: &str) -> (out: Option<json::JsonValue>)
    requires
        digit_runs_within(source@, longest_run()),
    ensures
        out == json_document(source@),
{
    match json::parse(source) {
        Ok(value) => Some(value),
        Err(_) => None,
    }
}

/// `JsonValue`'s `Index<&str>`: the member under `key`, a null value where
/// `value` is no object or has no such key.
#[verifier::external_body]
pub(crate) fn member<'a>(value: &'a json::JsonValue, key: &str) -> (out: &'a json::JsonValue)
    ensures
        *out == json_member(*value, key@),
{
    &value[key]
}

/// `JsonValue::as_str`: the text of a string value, `None` for any other.
#[verifier::external_body]
pub(crate) fn as_text(value: &json::JsonValue) -> (out: Option<String>)
    ensures
        text_of(out) == json_text(*value),
{
    value.as_str().map(|s| s.to_owned())
}

/// `JsonValue::as_u64`: the value of a number that the document holds with
/// a positive sign, without a decimal exponent and with a mantissa that a
/// `u64` holds (`300`, not `-7`, `7.5` or `1e3`); `None` for any other
/// value.
#[verifier::external_body]
pub(crate) fn as_count(value: &json::JsonValue) -> (out: Option<u64>)
    ensures
        out == json_count(*value),
{
    value.as_u64()
}

/// `JsonValue::as_bool`: a boolean value, `None` for any other.
#[verifier::external_body]
pub(crate) fn as_flag(value: &json::JsonValue) -> (out: Option<bool>)
    ensures
        out == json_flag(*value),
{
    value.as_bool()
}

/// `JsonValue::members`: the elements of an array in order, none for any
/// other value. Each is cloned out of the document.
#[verifier::external_body]
pub(crate) fn items(value: &json::JsonValue) -> (out: Vec<json::JsonValue>)
    ensures
        out@ == json_items(*value),
{
    value.members().cloned().collect()
}

/// `JsonValue::is_array`: whether the value is an array.
#[verifier::external_body]
pub(crate) fn is_list(value: &json::JsonValue) -> (out: bool)
    ensures
        out == json_is_list(*value),
{
    value.is_array()
}

/// `String::from_iter` over the characters of `chars`.
#[verifier::external_body]
pub(crate) fn string_of(chars: &Vec<char>) -> (out: String)
    ensures
        out@ == chars@,
{
    String::from_iter(chars.iter())
}

} // verus!
