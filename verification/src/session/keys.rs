//! Which escape sequences are the paste shortcut, and which are replies of the terminal.

use vstd::prelude::*;
use vstd::slice::slice_subrange;

use crate::session::ascii::{
    COLON, ESCAPE, GREATER, LEFT_BRACKET, LOWER_C, LOWER_T, LOWER_U, LOWER_V, NINE, PLUS, QUESTION,
    SEMICOLON, TILDE, UPPER_R, UPPER_V, ZERO,
};
use crate::session::escape;

verus! {

/// What a control sequence means for the paste shortcut.
#[derive(Clone, Copy, Debug, PartialEq, Eq, Structural)]
pub enum ShortcutSequence {
    Press,
    Release,
    Other,
}

/// Modifier bits of the keyboard protocols.
pub const ALT: u16 = 2;

pub const CTRL: u16 = 4;

pub const CAPS_LOCK: u16 = 64;

pub const NUM_LOCK: u16 = 128;

/// The position of the first `sep` in `s`, or its length.
pub open spec fn first_index(s: Seq<u8>, sep: u8) -> int
    decreases s.len(),
{
    if s.len() == 0 || s[0] == sep {
        0
    } else {
        1 + first_index(s.skip(1), sep)
    }
}

/// The fields of `s` between the separators `sep`; there is always at least one.
pub open spec fn split_on(s: Seq<u8>, sep: u8) -> Seq<Seq<u8>>
    decreases s.len(),
{
    let i = first_index(s, sep);
    if 0 <= i < s.len() {
        seq![s.take(i)] + split_on(s.skip(i + 1), sep)
    } else {
        seq![s]
    }
}

/// The field with index `k`, where there is one.
pub open spec fn field(s: Seq<u8>, sep: u8, k: int) -> Option<Seq<u8>> {
    let fields = split_on(s, sep);
    if 0 <= k < fields.len() {
        Some(fields[k])
    } else {
        None
    }
}

pub open spec fn is_digit(b: u8) -> bool {
    ZERO <= b <= NINE
}

pub open spec fn all_digits(s: Seq<u8>) -> bool {
    forall|i: int| 0 <= i < s.len() ==> is_digit(#[trigger] s[i])
}

/// The number that a sequence of digits writes in decimal.
pub open spec fn digits_value(s: Seq<u8>) -> nat
    decreases s.len(),
{
    if s.len() == 0 {
        0
    } else {
        digits_value(s.drop_last()) * 10 + (s.last() - ZERO) as nat
    }
}

/// The digits of a number: what follows an optional plus sign.
pub open spec fn unsigned_digits(s: Seq<u8>) -> Seq<u8> {
    if s.len() > 0 && s[0] == PLUS {
        s.skip(1)
    } else {
        s
    }
}

/// The 16-bit number that `s` writes: an optional plus sign, then digits only.
pub open spec fn number_of(s: Seq<u8>) -> Option<u16> {
    let digits = unsigned_digits(s);
    if digits.len() > 0 && all_digits(digits) && digits_value(digits) <= u16::MAX {
        Some(digits_value(digits) as u16)
    } else {
        None
    }
}

/// The number of a parameter: what stands before its first colon.
pub open spec fn parameter_value(parameter: Option<Seq<u8>>) -> Option<u16> {
    match parameter {
        Some(p) => number_of(split_on(p, COLON)[0]),
        None => None,
    }
}

/// The key is `v`, in either case.
pub open spec fn names_v(codepoint: Option<u16>) -> bool {
    codepoint matches Some(code) && (code == LOWER_V || code == UPPER_V)
}

/// The modifiers are exactly one of alt and control, whatever the lock keys.
/// The protocols send the sum of the modifier bits plus one.
pub open spec fn names_shortcut_modifier(encoded: Option<u16>) -> bool {
    encoded matches Some(e) && exists|key: u16, caps: u16, num: u16|
        {
            &&& key == ALT || key == CTRL
            &&& caps == 0 || caps == CAPS_LOCK
            &&& num == 0 || num == NUM_LOCK
            &&& e == 1 + #[trigger] modifier_sum(key, caps, num)
        }
}

pub open spec fn modifier_sum(key: u16, caps: u16, num: u16) -> int {
    key + caps + num
}

/// Kitty's keyboard protocol: `code;modifiers:event`, the event being a press
/// (1), a repeat (2) or a release (3), and a press where none is given.
pub open spec fn kitty_meaning(parameters: Seq<u8>) -> ShortcutSequence {
    let modifiers_and_event = field(parameters, SEMICOLON, 1);
    if !names_v(parameter_value(field(parameters, SEMICOLON, 0))) {
        ShortcutSequence::Other
    } else if modifiers_and_event is None {
        ShortcutSequence::Other
    } else {
        let parts = modifiers_and_event->0;
        if !names_shortcut_modifier(parameter_value(field(parts, COLON, 0))) {
            ShortcutSequence::Other
        } else {
            match parameter_value(field(parts, COLON, 1)) {
                None | Some(1u16) | Some(2u16) => ShortcutSequence::Press,
                Some(3u16) => ShortcutSequence::Release,
                _ => ShortcutSequence::Other,
            }
        }
    }
}

/// XTerm's modifyOtherKeys encoding: `27;modifiers;code`.
pub open spec fn modify_other_keys_meaning(parameters: Seq<u8>) -> ShortcutSequence {
    if parameter_value(field(parameters, SEMICOLON, 0)) == Some(27u16) && names_shortcut_modifier(
        parameter_value(field(parameters, SEMICOLON, 1)),
    ) && names_v(parameter_value(field(parameters, SEMICOLON, 2))) {
        ShortcutSequence::Press
    } else {
        ShortcutSequence::Other
    }
}

/// The bytes between `ESC [` and the final byte, where `sequence` has that form.
pub open spec fn csi_parameters(sequence: Seq<u8>) -> Option<Seq<u8>> {
    if sequence.len() >= 3 && escape::starts_csi(sequence) {
        Some(sequence.subrange(2, sequence.len() - 1))
    } else {
        None
    }
}

/// What a whole control sequence means for the paste shortcut.
pub open spec fn shortcut_meaning(sequence: Seq<u8>) -> ShortcutSequence {
    match csi_parameters(sequence) {
        None => ShortcutSequence::Other,
        Some(parameters) => if sequence.last() == LOWER_U {
            kitty_meaning(parameters)
        } else if sequence.last() == TILDE {
            modify_other_keys_meaning(parameters)
        } else {
            ShortcutSequence::Other
        },
    }
}

/// A whole control sequence is the terminal's reply to a query: device
/// attributes, keyboard mode, cursor position or window size.
pub open spec fn is_reply(sequence: Seq<u8>) -> bool {
    csi_parameters(sequence) matches Some(parameters) && parameters.len() > 0 && {
        let first = parameters[0];
        ||| sequence.last() == LOWER_C && (first == QUESTION || first == GREATER)
        ||| sequence.last() == LOWER_U && first == QUESTION
        ||| sequence.last() == UPPER_R && is_digit(first)
        ||| sequence.last() == LOWER_T && is_digit(first)
    }
}

/// `first_index` finds the first separator.
pub proof fn lemma_first_index(s: Seq<u8>, sep: u8, i: int)
    requires
        0 <= i <= s.len(),
        forall|j: int| 0 <= j < i ==> s[j] != sep,
        i < s.len() ==> s[i] == sep,
    ensures
        first_index(s, sep) == i,
    decreases s.len(),
{
    if i > 0 {
        assert(s.skip(1)[i - 1] == s[i] || i == s.len());
        assert forall|j: int| 0 <= j < i - 1 implies s.skip(1)[j] != sep by {
            assert(s.skip(1)[j] == s[j + 1]);
        }
        lemma_first_index(s.skip(1), sep, i - 1);
    }
}

/// Splits off the field before the first `sep`; the second part is what follows it.
fn split_field<'a>(s: &'a [u8], sep: u8) -> (r: (&'a [u8], Option<&'a [u8]>))
    ensures
        split_on(s@, sep) =~= match r.1 {
            Some(rest) => seq![r.0@] + split_on(rest@, sep),
            None => seq![r.0@],
        },
{
    let mut i: usize = 0;
    while i < s.len() && s[i] != sep
        invariant
            0 <= i <= s@.len(),
            forall|j: int| 0 <= j < i ==> s@[j] != sep,
        decreases s@.len() - i,
    {
        i += 1;
    }
    proof {
        lemma_first_index(s@, sep, i as int);
    }
    if i < s.len() {
        proof {
            assert(s@.take(i as int) == s@.subrange(0, i as int));
            assert(s@.skip(i + 1) == s@.subrange(i + 1, s@.len() as int));
        }
        (slice_subrange(s, 0, i), Some(slice_subrange(s, i + 1, s.len())))
    } else {
        (s, None)
    }
}

proof fn lemma_digits_value_grows(s: Seq<u8>, i: int)
    requires
        0 <= i <= s.len(),
        all_digits(s),
    ensures
        digits_value(s.take(i)) <= digits_value(s),
    decreases s.len() - i,
{
    if i < s.len() {
        assert(s.take(i + 1).drop_last() =~= s.take(i));
        assert(is_digit(s[i]));
        lemma_digits_value_grows(s, i + 1);
    } else {
        assert(s.take(i) =~= s);
    }
}

/// Reads an optional plus sign and decimal digits as a 16-bit number.
fn parse_number(s: &[u8]) -> (r: Option<u16>)
    ensures
        r == number_of(s@),
{
    let start: usize = if s.len() > 0 && s[0] == PLUS {
        1
    } else {
        0
    };
    let ghost digits = unsigned_digits(s@);
    if start == s.len() {
        return None;
    }
    let mut i: usize = start;
    let mut value: u32 = 0;
    proof {
        assert(digits.take(0) =~= Seq::<u8>::empty());
    }
    while i < s.len()
        invariant
            start <= 1,
            start <= i <= s@.len(),
            digits == unsigned_digits(s@),
            start == 1 <==> (s@.len() > 0 && s@[0] == PLUS),
            forall|j: int| 0 <= j < i - start ==> is_digit(#[trigger] digits[j]),
            value == digits_value(digits.take(i - start)),
            value <= u16::MAX,
        decreases s@.len() - i,
    {
        let byte: u8 = s[i];
        assert(byte == digits[i - start]);
        if byte < ZERO || byte > NINE {
            return None;
        }
        proof {
            assert(digits.take(i - start + 1).drop_last() =~= digits.take(i - start));
        }
        value = value * 10 + (byte - ZERO) as u32;
        i += 1;
        if value > 65535 {
            proof {
                if all_digits(digits) {
                    lemma_digits_value_grows(digits, i - start);
                }
            }
            return None;
        }
    }
    proof {
        assert(digits.take(digits.len() as int) =~= digits);
    }
    Some(value as u16)
}

/// The view of an optional slice.
pub open spec fn optional_bytes(p: Option<&[u8]>) -> Option<Seq<u8>> {
    match p {
        Some(s) => Some(s@),
        None => None,
    }
}

/// Reads the number of a parameter, up to its first colon.
pub fn parameter_number(parameter: Option<&[u8]>) -> (r: Option<u16>)
    ensures
        r == parameter_value(optional_bytes(parameter)),
{
    match parameter {
        None => None,
        Some(p) => {
            let digits = split_field(p, COLON).0;
            parse_number(digits)
        },
    }
}

pub fn is_v_codepoint(codepoint: Option<u16>) -> (r: bool)
    ensures
        r == names_v(codepoint),
{
    match codepoint {
        Some(value) => value == LOWER_V as u16 || value == UPPER_V as u16,
        None => false,
    }
}

pub fn is_clipboard_modifier(encoded_modifiers: Option<u16>) -> (r: bool)
    ensures
        r == names_shortcut_modifier(encoded_modifiers),
{
    let modifiers: u16 = match encoded_modifiers {
        None => {
            return false;
        },
        Some(value) => {
            if value == 0 {
                proof {
                    assert(forall|k: u16, c: u16, n: u16| #[trigger] modifier_sum(k, c, n) >= 0);
                }
                return false;
            }
            value - 1
        },
    };
    let shortcut: u16 = modifiers & (ALT | CTRL);
    let r = (shortcut == ALT || shortcut == CTRL) && modifiers & !(ALT | CTRL | CAPS_LOCK
        | NUM_LOCK) == 0;
    proof {
        let m = modifiers;
        assert(r == (m == 2 || m == 4 || m == 66 || m == 68 || m == 130 || m == 132 || m == 194 || m
            == 196)) by {
            assert(((m & (2u16 | 4u16) == 2u16 || m & (2u16 | 4u16) == 4u16) && m & !(2u16 | 4u16
                | 64u16 | 128u16) == 0u16) == (m == 2 || m == 4 || m == 66 || m == 68 || m == 130
                || m == 132 || m == 194 || m == 196)) by (bit_vector);
        }
        if r {
            let key: u16 = if m == 2 || m == 66 || m == 130 || m == 194 {
                ALT
            } else {
                CTRL
            };
            let caps: u16 = if m == 66 || m == 68 || m == 194 || m == 196 {
                CAPS_LOCK
            } else {
                0
            };
            let num: u16 = if m >= 130 {
                NUM_LOCK
            } else {
                0
            };
            assert(modifiers == modifier_sum(key, caps, num));
        }
    }
    r
}

pub fn kitty_clipboard_shortcut(parameters: &[u8]) -> (r: ShortcutSequence)
    ensures
        r == kitty_meaning(parameters@),
{
    let (code, rest) = split_field(parameters, SEMICOLON);
    if !is_v_codepoint(parameter_number(Some(code))) {
        return ShortcutSequence::Other;
    }
    let modifiers_and_event = match rest {
        None => {
            return ShortcutSequence::Other;
        },
        Some(rest) => split_field(rest, SEMICOLON).0,
    };
    let (modifiers, rest) = split_field(modifiers_and_event, COLON);
    if !is_clipboard_modifier(parameter_number(Some(modifiers))) {
        return ShortcutSequence::Other;
    }
    let event = match rest {
        None => None,
        Some(rest) => Some(split_field(rest, COLON).0),
    };
    match parameter_number(event) {
        None | Some(1u16) | Some(2u16) => ShortcutSequence::Press,
        Some(3u16) => ShortcutSequence::Release,
        _ => ShortcutSequence::Other,
    }
}

pub fn modify_other_keys_clipboard_shortcut(parameters: &[u8]) -> (r: ShortcutSequence)
    ensures
        r == modify_other_keys_meaning(parameters@),
{
    let (first, rest) = split_field(parameters, SEMICOLON);
    let (second, rest) = match rest {
        None => (None, None),
        Some(rest) => {
            let (field, rest) = split_field(rest, SEMICOLON);
            (Some(field), rest)
        },
    };
    let third = match rest {
        None => None,
        Some(rest) => Some(split_field(rest, SEMICOLON).0),
    };
    let kind = match parameter_number(Some(first)) {
        Some(number) => number == 27,
        None => false,
    };
    if !kind || !is_clipboard_modifier(parameter_number(second)) || !is_v_codepoint(
        parameter_number(third),
    ) {
        return ShortcutSequence::Other;
    }
    ShortcutSequence::Press
}

/// The bytes between `ESC [` and the final byte.
fn parameters_of<'a>(sequence: &'a [u8]) -> (r: Option<&'a [u8]>)
    ensures
        optional_bytes(r) == csi_parameters(sequence@),
{
    if sequence.len() >= 3 && sequence[0] == ESCAPE && sequence[1] == LEFT_BRACKET {
        Some(slice_subrange(sequence, 2, sequence.len() - 1))
    } else {
        None
    }
}

pub fn clipboard_shortcut_sequence(sequence: &[u8]) -> (r: ShortcutSequence)
    ensures
        r == shortcut_meaning(sequence@),
{
    let parameters = match parameters_of(sequence) {
        Some(parameters) => parameters,
        None => {
            return ShortcutSequence::Other;
        },
    };
    let final_byte: u8 = sequence[sequence.len() - 1];
    if final_byte == LOWER_U {
        kitty_clipboard_shortcut(parameters)
    } else if final_byte == TILDE {
        modify_other_keys_clipboard_shortcut(parameters)
    } else {
        ShortcutSequence::Other
    }
}

pub fn is_terminal_response(sequence: &[u8]) -> (r: bool)
    ensures
        r == is_reply(sequence@),
{
    let parameters = match parameters_of(sequence) {
        Some(parameters) => parameters,
        None => {
            return false;
        },
    };
    if parameters.len() == 0 {
        return false;
    }
    let first: u8 = parameters[0];
    let final_byte: u8 = sequence[sequence.len() - 1];
    if final_byte == LOWER_C {
        first == QUESTION || first == GREATER
    } else if final_byte == LOWER_U {
        first == QUESTION
    } else if final_byte == UPPER_R || final_byte == LOWER_T {
        ZERO <= first && first <= NINE
    } else {
        false
    }
}

} // verus!
