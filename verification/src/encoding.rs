use vstd::prelude::*;

verus! {

/// The length of the standard (padded) Base64 text of `n` bytes.
pub open spec fn base64_len(n: nat) -> nat {
    (n / 3) * 4 + (if n % 3 > 0 { 4nat } else { 0nat })
}

/// The character of the standard Base64 alphabet for a value below 64.
pub open spec fn base64_char(v: int) -> char {
    if v < 26 {
        (65 + v) as char
    } else if v < 52 {
        (97 + v - 26) as char
    } else if v < 62 {
        (48 + v - 52) as char
    } else if v == 62 {
        '+'
    } else {
        '/'
    }
}

/// The standard (RFC 4648, padded) Base64 text of some bytes, as
/// `base64::encode` writes it: four characters for each group of three
/// bytes, the last group padded with `=`.
pub open spec fn base64_text(bytes: Seq<u8>) -> Seq<char>
    decreases bytes.len(),
{
    if bytes.len() == 0 {
        Seq::empty()
    } else if bytes.len() == 1 {
        let a = bytes[0] as int;
        seq![base64_char(a / 4), base64_char((a % 4) * 16), '=', '=']
    } else if bytes.len() == 2 {
        let a = bytes[0] as int;
        let b = bytes[1] as int;
        seq![base64_char(a / 4), base64_char((a % 4) * 16 + b / 16), base64_char((b % 16) * 4), '=']
    } else {
        let a = bytes[0] as int;
        let b = bytes[1] as int;
        let c = bytes[2] as int;
        seq![
            base64_char(a / 4),
            base64_char((a % 4) * 16 + b / 16),
            base64_char((b % 16) * 4 + c / 64),
            base64_char(c % 64),
        ] + base64_text(bytes.subrange(3, bytes.len() as int))
    }
}

/// The bytes that `base64::decode` reads from a text with the standard
/// alphabet and padding, or `None` where it refuses the text.
pub uninterp spec fn base64_bytes(text: Seq<char>) -> Option<Seq<u8>>;

#[verifier::external_type_specification]
#[verifier::external_body]
pub struct ExDecodeError(base64::DecodeError);

/// Calls `base64::encode` (the standard engine). Claimed: the text is
/// `base64_text` of the bytes, has the padded length, and decodes back to
/// the same bytes with `base64::decode` (the engine's round trip).
#[verifier::external_body]
pub(crate) fn base64_encode(bytes: &[u8]) -> (r: String)
    requires
        base64_len(bytes@.len()) <= usize::MAX,
    ensures
        r@ == base64_text(bytes@),
        r@.len() == base64_len(bytes@.len()),
        base64_bytes(r@) == Some(bytes@),
{
    #[allow(deprecated)]
    base64::encode(bytes)
}

/// Calls `base64::decode` (the standard engine) on the text's bytes. Claimed:
/// it succeeds exactly when the named `base64_bytes` is `Some`, with those bytes.
#[verifier::external_body]
pub(crate) fn base64_decode(text: &str) -> (r: Result<Vec<u8>, base64::DecodeError>)
    ensures
        r is Ok <==> base64_bytes(text@) is Some,
        r matches Ok(b) ==> base64_bytes(text@) == Some(b@),
{
    #[allow(deprecated)]
    base64::decode(text)
}

/// What `Regex::new(pattern)` and then `is_match(text)` give: `Some` with
/// whether the text matches, or `None` where the pattern is refused.
pub uninterp spec fn regex_match_outcome(pattern: Seq<char>, text: Seq<char>) -> Option<bool>;

/// An ASCII digit.
pub open spec fn ascii_digit(c: char) -> bool {
    '0' <= c && c <= '9'
}

/// Whether every character is ASCII.
pub open spec fn all_ascii(s: Seq<char>) -> bool {
    forall|i: int| 0 <= i < s.len() ==> (#[trigger] s[i] as int) < 128
}

/// A text of exactly the shape `yyyy-mm-dd`: four digits, `-`, a month from
/// `01` to `12`, `-`, a day from `01` to `31`.
pub open spec fn yyyy_mm_dd(s: Seq<char>) -> bool {
    &&& s.len() == 10
    &&& ascii_digit(s[0]) && ascii_digit(s[1]) && ascii_digit(s[2]) && ascii_digit(s[3])
    &&& s[4] == '-'
    &&& ((s[5] == '0' && '1' <= s[6] && s[6] <= '9') || (s[5] == '1' && '0' <= s[6] && s[6] <= '2'))
    &&& s[7] == '-'
    &&& ((s[8] == '0' && '1' <= s[9] && s[9] <= '9') || ('1' <= s[8] && s[8] <= '2' && ascii_digit(s[9]))
        || (s[8] == '3' && '0' <= s[9] && s[9] <= '1'))
}

/// Compiles `pattern` with `regex::Regex::new` and tests `text` with
/// `is_match`. Claimed: the result is the named `regex_match_outcome`; and
/// for the date pattern `^\d{4}-(0[1-9]|1[012])-(0[1-9]|[12][0-9]|3[01])$`
/// and an ASCII text, the pattern compiles and matches exactly a text of the
/// shape `yyyy-mm-dd` (`^` and `$` anchor at the start and end of the text
/// outside multi-line mode, and `\d` matches only `0`-`9` among ASCII
/// characters).
#[verifier::external_body]
pub(crate) fn regex_is_match(pattern: &str, text: &str) -> (r: Option<bool>)
    ensures
        r == regex_match_outcome(pattern@, text@),
        pattern@ == "^\\d{4}-(0[1-9]|1[012])-(0[1-9]|[12][0-9]|3[01])$"@ && all_ascii(text@) ==> r == Some(
            yyyy_mm_dd(text@),
        ),
{
    match regex::Regex::new(pattern) {
        Ok(re) => Some(re.is_match(text)),
        Err(_) => None,
    }
}

} // verus!
