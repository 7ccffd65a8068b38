//! Every call into std or an outside crate that Verus has no specification
//! for goes through one of the items below. Their contracts are trusted.
use vstd::prelude::*;
use vstd::utf8::encode_utf8;

verus! {

/// What std's `str::to_lowercase` returns for a string: the Unicode lowercase
/// mapping of every character. The mapping itself is not spelled out here.
pub uninterp spec fn lowercase(s: Seq<char>) -> Seq<char>;

/// Calls `str::to_lowercase`. Trusted claim: the result is the std lowercase
/// mapping of `s`, and depends on `s` alone.
#[verifier::external_body]
pub(crate) fn to_lowercase(s: &str) -> (res: String)
    ensures
        res@ == lowercase(s@),
{
    s.to_lowercase()
}

/// Calls `String::push`. Trusted claim: `c` is appended at the end.
#[verifier::external_body]
pub(crate) fn push_char(s: &mut String, c: char)
    ensures
        final(s)@ == old(s)@.push(c),
{
    s.push(c)
}

/// What the `regex` crate finds for `pattern` in `text`: `None` when
/// `Regex::new(pattern)` refuses the pattern, otherwise the texts of the
/// successive non-overlapping matches that `Regex::find_iter` yields.
pub uninterp spec fn regex_find_all(pattern: Seq<char>, text: Seq<char>) -> Option<Seq<Seq<char>>>;

/// Compiles `pattern` with `regex::Regex::new` and collects the text of each
/// match of `Regex::find_iter` over `text`. Trusted claim: the result is the
/// named value `regex_find_all(pattern, text)`; nothing more is claimed about
/// which substrings match.
#[verifier::external_body]
pub(crate) fn find_all_matches(pattern: &str, text: &str) -> (res: Option<Vec<String>>)
    ensures
        res.is_some() == regex_find_all(pattern@, text@).is_some(),
        res matches Some(v) ==> regex_find_all(pattern@, text@) == Some(v.deep_view()),
{
    match regex::Regex::new(pattern) {
        Ok(re) => {
            let mut out: Vec<String> = Vec::new();
            for m in re.find_iter(text) {
                out.push(m.as_str().to_string());
            }
            Some(out)
        },
        Err(_) => None,
    }
}

/// What `regex::Regex::captures` gives for `pattern` on `text`: `None` when
/// `Regex::new(pattern)` refuses the pattern, `Some(None)` when nothing
/// matches, otherwise the text of every group of the leftmost match, group 0
/// first, `None` for a group that took no part in it.
pub uninterp spec fn regex_captures(pattern: Seq<char>, text: Seq<char>) -> Option<Option<Seq<Option<Seq<char>>>>>;

/// Compiles `pattern` with `regex::Regex::new`, runs `Regex::captures` on
/// `text` and collects the text of each group of `Captures::iter`. Trusted
/// claim: the result is the named value `regex_captures(pattern, text)`.
#[verifier::external_body]
pub(crate) fn capture_groups(pattern: &str, text: &str) -> (res: Option<Option<Vec<Option<String>>>>)
    ensures
        res.is_some() == regex_captures(pattern@, text@).is_some(),
        res matches Some(g) ==> regex_captures(pattern@, text@) == Some(g.deep_view()),
{
    match regex::Regex::new(pattern) {
        Ok(re) => match re.captures(text) {
            Some(caps) => {
                let mut groups: Vec<Option<String>> = Vec::new();
                for m in caps.iter() {
                    groups.push(m.map(|m| m.as_str().to_string()));
                }
                Some(Some(groups))
            },
            None => Some(None),
        },
        Err(_) => None,
    }
}

/// Whether `urlencoding` leaves byte `b` unescaped: ASCII letters, digits and `-`, `.`, `_`, `~`.
pub open spec fn url_unreserved(b: u8) -> bool {
    (48 <= b <= 57) || (65 <= b <= 90) || (97 <= b <= 122) || b == 45 || b == 46 || b == 95 || b == 126
}

/// Upper-case hexadecimal digit of `d < 16`.
pub open spec fn hex_digit_upper(d: u8) -> char {
    seq!['0', '1', '2', '3', '4', '5', '6', '7', '8', '9', 'A', 'B', 'C', 'D', 'E', 'F'][d as int]
}

/// Percent-encoding of a byte string as `urlencoding::encode` does it:
/// unreserved bytes stay, every other byte becomes `%` and two upper-case hex digits.
pub open spec fn percent_encode(bytes: Seq<u8>) -> Seq<char>
    decreases bytes.len(),
{
    if bytes.len() == 0 {
        Seq::empty()
    } else {
        let b = bytes.last();
        let tail = if url_unreserved(b) {
            seq![b as char]
        } else {
            seq!['%', hex_digit_upper(b / 16), hex_digit_upper(b % 16)]
        };
        percent_encode(bytes.drop_last()) + tail
    }
}

/// Calls `urlencoding::encode`. Trusted claim, from its documentation and
/// source: every byte of the UTF-8 encoding of `s` is kept when it is an ASCII
/// letter, digit, `-`, `.`, `_` or `~`, and otherwise written as `%XY` with
/// upper-case hex digits.
#[verifier::external_body]
pub(crate) fn url_encode(s: &str) -> (res: String)
    ensures
        res@ == percent_encode(encode_utf8(s@)),
{
    urlencoding::encode(s).into_owned()
}

/// Draws an index from `rand::thread_rng().gen_range(0..n)`. Trusted claim:
/// the index is below `n`; which index comes is left open.
#[verifier::external_body]
pub(crate) fn random_below(n: usize) -> (res: usize)
    requires
        n > 0,
    ensures
        res < n,
{
    rand::Rng::gen_range(&mut rand::thread_rng(), 0..n)
}

/// `serde_json::Error`, the error of a failed JSON read.
#[verifier::external_type_specification]
#[verifier::external_body]
pub struct ExJsonError(serde_json::Error);

/// The outcome of a `serde_json` call.
pub type JsonResult<T> = Result<T, serde_json::Error>;

/// The JSON text that `serde_json::to_string` writes for an optional list of
/// strings (`null`, or an array of JSON strings).
pub uninterp spec fn json_text_of_names(v: Option<Seq<Seq<char>>>) -> Seq<char>;

/// The JSON text that `serde_json::to_string` writes for an optional list of
/// string pairs (`null`, or an array of two-element arrays).
pub uninterp spec fn json_text_of_pairs(v: Option<Seq<(Seq<char>, Seq<char>)>>) -> Seq<char>;

/// The JSON text that `serde_json::to_string` writes for a string.
pub uninterp spec fn json_text_of_string(s: Seq<char>) -> Seq<char>;

/// What `serde_json::from_str::<Option<Vec<String>>>` reads from a text:
/// `None` when it fails.
pub uninterp spec fn json_names_of_text(t: Seq<char>) -> Option<Option<Seq<Seq<char>>>>;

/// What `serde_json::from_str::<Option<Vec<(String, String)>>>` reads from a
/// text: `None` when it fails.
pub uninterp spec fn json_pairs_of_text(t: Seq<char>) -> Option<Option<Seq<(Seq<char>, Seq<char>)>>>;

/// What `serde_json::from_str::<String>` reads from a text: `None` when it fails.
pub uninterp spec fn json_string_of_text(t: Seq<char>) -> Option<Seq<char>>;

/// Calls `serde_json::to_string` on an optional list of strings. Trusted
/// claims: the call succeeds (its documentation names only failing
/// `Serialize` impls and maps with non-string keys as causes of failure), and
/// the text is the named value `json_text_of_names(v)`.
#[verifier::external_body]
pub(crate) fn names_to_json(v: &Option<Vec<String>>) -> (res: JsonResult<String>)
    ensures
        res is Ok,
        res matches Ok(t) ==> t@ == json_text_of_names(v.deep_view()),
{
    serde_json::to_string(v)
}

/// Calls `serde_json::to_string` on an optional list of string pairs.
/// Trusted claims: the call succeeds, and the text is the named value
/// `json_text_of_pairs(v)`.
#[verifier::external_body]
pub(crate) fn pairs_to_json(v: &Option<Vec<(String, String)>>) -> (res: Result<String, serde_json::Error>)
    ensures
        res is Ok,
        res matches Ok(t) ==> t@ == json_text_of_pairs(v.deep_view()),
{
    serde_json::to_string(v)
}

/// Calls `serde_json::to_string` on a string. Trusted claims: the call
/// succeeds, and the text is the named value `json_text_of_string(s)`.
#[verifier::external_body]
pub(crate) fn string_to_json(s: &String) -> (res: Result<String, serde_json::Error>)
    ensures
        res is Ok,
        res matches Ok(t) ==> t@ == json_text_of_string(s@),
{
    serde_json::to_string(s)
}

/// Calls `serde_json::from_str::<Option<Vec<String>>>`. Trusted claims: the
/// outcome is the named value `json_names_of_text(text)`, and a text that
/// `serde_json::to_string` wrote for a value reads back as that value
/// (its serializer escapes every string that its deserializer unescapes).
#[verifier::external_body]
pub(crate) fn names_from_json(text: &str) -> (res: Result<Option<Vec<String>>, serde_json::Error>)
    ensures
        res is Ok <==> json_names_of_text(text@) is Some,
        res matches Ok(v) ==> json_names_of_text(text@) == Some(v.deep_view()),
        forall|v: Option<Seq<Seq<char>>>| #[trigger] json_text_of_names(v) == text@ ==> res is Ok,
        forall|v: Option<Seq<Seq<char>>>| #[trigger] json_text_of_names(v) == text@ ==> (res matches Ok(p) ==> p.deep_view() == v),
{
    serde_json::from_str(text)
}

/// Calls `serde_json::from_str::<Option<Vec<(String, String)>>>`. Trusted
/// claims: the outcome is the named value `json_pairs_of_text(text)`, and a
/// text that `serde_json::to_string` wrote for a value reads back as that value.
#[verifier::external_body]
pub(crate) fn pairs_from_json(text: &str) -> (res: Result<Option<Vec<(String, String)>>, serde_json::Error>)
    ensures
        res is Ok <==> json_pairs_of_text(text@) is Some,
        res matches Ok(v) ==> json_pairs_of_text(text@) == Some(v.deep_view()),
        forall|v: Option<Seq<(Seq<char>, Seq<char>)>>| #[trigger] json_text_of_pairs(v) == text@ ==> res is Ok,
        forall|v: Option<Seq<(Seq<char>, Seq<char>)>>| #[trigger] json_text_of_pairs(v) == text@ ==> (res matches Ok(p) ==> p.deep_view() == v),
{
    serde_json::from_str(text)
}

/// Calls `serde_json::from_str::<String>`. Trusted claims: the outcome is the
/// named value `json_string_of_text(text)`, and a text that
/// `serde_json::to_string` wrote for a string reads back as that string.
#[verifier::external_body]
pub(crate) fn string_from_json(text: &str) -> (res: Result<String, serde_json::Error>)
    ensures
        res is Ok <==> json_string_of_text(text@) is Some,
        res matches Ok(v) ==> json_string_of_text(text@) == Some(v@),
        forall|v: Seq<char>| #[trigger] json_text_of_string(v) == text@ ==> res is Ok,
        forall|v: Seq<char>| #[trigger] json_text_of_string(v) == text@ ==> (res matches Ok(p) ==> p@ == v),
{
    serde_json::from_str(text)
}

/// The message of a JSON error, as its `Display` impl writes it. Nothing is
/// claimed of the text.
#[verifier::external_body]
pub(crate) fn json_error_message(e: serde_json::Error) -> (res: String) {
    e.to_string()
}

} // verus!
