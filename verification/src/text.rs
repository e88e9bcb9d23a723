//! Text building blocks: characters, decimal numbers, UTF-8 decoding and searching.

use vstd::prelude::*;
use vstd::string::*;
use vstd::utf8::*;

verus! {

/// `String::push` appends one character.
pub assume_specification[ String::push ](s: &mut String, ch: char)
    ensures
        final(s)@ == old(s)@.push(ch),
;

/// What `Debug` prints for the text `s`: in double quotes, with escapes.
pub uninterp spec fn debug_text(s: Seq<char>) -> Seq<char>;

/// Formats `s` with std's `Debug` for `str`. The contract names the result: which
/// characters it escapes follows the Unicode tables of std.
#[verifier::external_body]
pub(crate) fn debug_quoted(s: &str) -> (r: String)
    ensures
        r@ == debug_text(s@),
{
    format!("{s:?}")
}

/// What std's `Utf8Error` says of bytes that are not valid UTF-8.
pub uninterp spec fn utf8_error_text(bytes: Seq<u8>) -> Seq<char>;

/// Decodes `bytes` with std's `str::from_utf8`. It succeeds exactly on valid
/// UTF-8, with the text that the bytes encode; otherwise the error is named.
#[verifier::external_body]
pub(crate) fn decode_text(bytes: &[u8]) -> (r: Result<String, String>)
    ensures
        r is Ok <==> valid_utf8(bytes@),
        r matches Ok(text) ==> text@ == decode_utf8(bytes@),
        r matches Err(text) ==> text@ == utf8_error_text(bytes@),
{
    match std::str::from_utf8(bytes) {
        Ok(text) => Ok(text.to_owned()),
        Err(error) => Err(error.to_string()),
    }
}

/// Text as the operating system hands it over: any bytes, usually UTF-8.
#[derive(Debug, PartialEq, Eq)]
pub struct OsText {
    pub bytes: Vec<u8>,
}

impl View for OsText {
    type V = Seq<u8>;

    open spec fn view(&self) -> Seq<u8> {
        self.bytes@
    }
}

impl Clone for OsText {
    fn clone(&self) -> (r: Self)
        ensures
            r@ == self@,
    {
        let bytes = self.bytes.clone();
        assert(bytes@ =~= self.bytes@);
        OsText { bytes }
    }
}

impl OsText {
    /// The operating system's form of `text`: its UTF-8 encoding.
    pub fn from_text(text: &str) -> (r: Self)
        ensures
            r@ == encode_utf8(text@),
    {
        OsText { bytes: text.as_bytes_vec() }
    }
}

/// The views of all elements.
pub open spec fn os_texts(list: Seq<OsText>) -> Seq<Seq<u8>> {
    list.map_values(|t: OsText| t@)
}

/// The view of an optional text.
pub open spec fn optional_text(s: Option<String>) -> Option<Seq<char>> {
    match s {
        Some(t) => Some(t@),
        None => None,
    }
}

/// The view of an optional text of the operating system.
pub open spec fn optional_os_text(s: Option<OsText>) -> Option<Seq<u8>> {
    match s {
        Some(t) => Some(t@),
        None => None,
    }
}

/// Copies an optional text.
pub fn copy_text(s: &Option<String>) -> (r: Option<String>)
    ensures
        optional_text(r) == optional_text(*s),
{
    match s {
        Some(t) => Some(t.clone()),
        None => None,
    }
}

/// The character of one decimal digit.
pub open spec fn digit_char(d: nat) -> char {
    (48 + d) as char
}

/// The decimal notation of `n`, without leading zeros.
pub open spec fn decimal_text(n: nat) -> Seq<char>
    decreases n,
{
    if n < 10 {
        seq![digit_char(n)]
    } else {
        decimal_text(n / 10).push(digit_char(n % 10))
    }
}

/// Writes `n` in decimal.
pub fn decimal(n: u128) -> (r: String)
    ensures
        r@ == decimal_text(n as nat),
    decreases n,
{
    let last: u8 = (n % 10) as u8;
    let mut r = if n < 10 {
        String::new()
    } else {
        decimal(n / 10)
    };
    r.push((48u8 + last) as char);
    proof {
        assert((48 + last) as char == digit_char((n % 10) as nat));
    }
    r
}

/// The decimal notation holds digits only, and at least one.
pub proof fn lemma_decimal_digits(n: nat)
    ensures
        decimal_text(n).len() > 0,
        forall|i: int|
            0 <= i < decimal_text(n).len() ==> '0' <= #[trigger] decimal_text(n)[i] <= '9',
    decreases n,
{
    if n >= 10 {
        lemma_decimal_digits(n / 10);
    }
}

/// Two numbers with the same notation are equal.
pub proof fn lemma_decimal_is_unique(a: nat, b: nat)
    requires
        decimal_text(a) == decimal_text(b),
    ensures
        a == b,
    decreases a,
{
    let s = decimal_text(a);
    if a < 10 && b < 10 {
        assert(s[0] == digit_char(a));
        assert(s[0] == digit_char(b));
    } else if a >= 10 && b >= 10 {
        assert(s.last() == digit_char(a % 10));
        assert(s.last() == digit_char(b % 10));
        assert(s.drop_last() =~= decimal_text(a / 10));
        assert(s.drop_last() =~= decimal_text(b / 10));
        lemma_decimal_is_unique(a / 10, b / 10);
    } else if a < 10 {
        lemma_decimal_digits(b / 10);
        assert(s.len() == 1);
    } else {
        lemma_decimal_digits(a / 10);
        assert(s.len() == 1);
    }
}

/// The characters of `s`, in order.
pub fn characters(s: &str) -> (r: Vec<char>)
    ensures
        r@ == s@,
{
    let mut r: Vec<char> = Vec::new();
    for c in it: s.chars()
        invariant
            r@ == it.seq().take(it.index() as int),
            it.seq() == s@,
    {
        r.push(c);
    }
    r
}

/// Whether two texts are equal.
pub fn same_text(a: &str, b: &str) -> (r: bool)
    ensures
        r == (a@ == b@),
{
    a.to_owned() == b.to_owned()
}

/// The letters and digits of ASCII.
pub open spec fn is_ascii_alphanumeric_char(c: char) -> bool {
    ('0' <= c <= '9') || ('A' <= c <= 'Z') || ('a' <= c <= 'z')
}

pub fn is_alphanumeric(c: char) -> (r: bool)
    ensures
        r == is_ascii_alphanumeric_char(c),
{
    ('0' <= c && c <= '9') || ('A' <= c && c <= 'Z') || ('a' <= c && c <= 'z')
}

/// `c`, or its lower case where it is an ASCII capital.
pub open spec fn lower_char(c: char) -> char {
    if 'A' <= c <= 'Z' {
        (c as u32 + 32) as char
    } else {
        c
    }
}

/// `needle` occurs in `s`.
pub open spec fn occurs_in(s: Seq<char>, needle: Seq<char>) -> bool {
    exists|i: int| occurs_at(s, needle, i)
}

/// `needle` occurs in `s` from position `i` on.
pub open spec fn occurs_at(s: Seq<char>, needle: Seq<char>, i: int) -> bool {
    0 <= i && i + needle.len() <= s.len() && s.subrange(i, i + needle.len()) == needle
}

fn lower(c: char) -> (r: char)
    ensures
        r == lower_char(c),
{
    if 'A' <= c && c <= 'Z' {
        (c as u8 + 32u8) as char
    } else {
        c
    }
}

/// Whether the text `s`, its ASCII capitals lowered, holds `needle`.
pub fn holds_ignoring_capitals(s: &str, needle: &str) -> (r: bool)
    ensures
        r == occurs_in(s@.map_values(|c: char| lower_char(c)), needle@),
{
    let hay = characters(s);
    let key = characters(needle);
    let ghost lowered = s@.map_values(|c: char| lower_char(c));
    let mut at: usize = 0;
    while at <= hay.len() && hay.len() - at >= key.len()
        invariant
            hay@ == s@,
            key@ == needle@,
            lowered == s@.map_values(|c: char| lower_char(c)),
            at <= hay@.len() + 1,
            forall|i: int| 0 <= i < at ==> !occurs_at(lowered, key@, i),
        decreases hay@.len() + 1 - at,
    {
        let mut k: usize = 0;
        while k < key.len() && lower(hay[at + k]) == key[k]
            invariant
                hay@ == s@,
                k <= key@.len(),
                at + key@.len() <= hay.len(),
                lowered == s@.map_values(|c: char| lower_char(c)),
                forall|j: int| 0 <= j < k ==> lowered[at + j] == #[trigger] key@[j],
            decreases key@.len() - k,
        {
            k += 1;
        }
        if k == key.len() {
            assert(lowered.subrange(at as int, at + key@.len()) =~= key@);
            assert(occurs_at(lowered, key@, at as int));
            return true;
        }
        proof {
            if occurs_at(lowered, key@, at as int) {
                assert(lowered.subrange(at as int, at + key@.len())[k as int] == key@[k as int]);
            }
        }
        at += 1;
    }
    false
}

/// Decimal notation goes digit by digit: a number below ten is one digit, and ten
/// times a number and a digit is the notation of the number with that digit behind.
pub proof fn law_decimal_goes_by_digits(n: nat, digit: nat)
    requires
        digit < 10,
    ensures
        decimal_text(digit) == seq![
            seq!['0', '1', '2', '3', '4', '5', '6', '7', '8', '9'][digit as int],
        ],
        n > 0 ==> decimal_text(10 * n + digit) == decimal_text(n).push(
            seq!['0', '1', '2', '3', '4', '5', '6', '7', '8', '9'][digit as int],
        ),
{
    let digits = seq!['0', '1', '2', '3', '4', '5', '6', '7', '8', '9'];
    assert(digit == 0 || digit == 1 || digit == 2 || digit == 3 || digit == 4 || digit == 5 || digit
        == 6 || digit == 7 || digit == 8 || digit == 9);
    assert(digit_char(digit) == digits[digit as int]);
    let m = (10 * n + digit) as nat;
    assert(m / 10 == n && m % 10 == digit);
}

/// Optional texts and lists of texts are told by their contents, an empty text as
/// such; copying and comparing keep to them.
pub proof fn law_texts_are_told(
    text: String,
    other: &str,
    os: OsText,
    list: Seq<OsText>,
    i: int,
    optional: &Option<String>,
    copy: Option<String>,
    same: bool,
    encoded: OsText,
)
    requires
        call_ensures(copy_text, (optional,), copy),
        call_ensures(same_text, (other, other), same),
        call_ensures(OsText::from_text, (other,), encoded),
    ensures
        optional_text(Some(text)) == Some(text@),
        optional_text(None) is None,
        optional_os_text(Some(os)) == Some(os.bytes@),
        optional_os_text(None) is None,
        os_texts(list).len() == list.len(),
        0 <= i < list.len() ==> os_texts(list)[i] == list[i].bytes@,
        copy is Some <==> optional is Some,
        copy is Some ==> copy->0@ == optional->0@,
        same,
        encoded.bytes@ == encode_utf8(other@),
{
}

} // verus!
