//! Where a terminal escape sequence ends.

use vstd::prelude::*;

use crate::session::ascii::{BACKSLASH, BELL, ESCAPE, LEFT_BRACKET, RIGHT_BRACKET};

verus! {

/// `s` starts with the two bytes that introduce a control sequence, `ESC [`.
pub open spec fn starts_csi(s: Seq<u8>) -> bool {
    s.len() >= 2 && s[0] == ESCAPE && s[1] == LEFT_BRACKET
}

/// `s` starts with the two bytes that introduce an operating system command, `ESC ]`.
pub open spec fn starts_osc(s: Seq<u8>) -> bool {
    s.len() >= 2 && s[0] == ESCAPE && s[1] == RIGHT_BRACKET
}

/// `s` starts a control sequence or an operating system command.
pub open spec fn starts_escape(s: Seq<u8>) -> bool {
    starts_csi(s) || starts_osc(s)
}

/// The bytes that end a control sequence.
pub open spec fn is_csi_final(b: u8) -> bool {
    0x40 <= b <= 0x7e
}

/// The length up to and including the first final byte at or after `from`.
pub open spec fn csi_end_from(s: Seq<u8>, from: int) -> Option<int>
    decreases s.len() - from,
{
    if from >= s.len() {
        None
    } else if is_csi_final(s[from]) {
        Some(from + 1)
    } else {
        csi_end_from(s, from + 1)
    }
}

/// The length of the control sequence that `s` starts with, once it is complete.
pub open spec fn csi_end(s: Seq<u8>) -> Option<int> {
    csi_end_from(s, 2)
}

/// An operating system command ends at position `at`: a bell, or `ESC \`.
pub open spec fn osc_terminator(s: Seq<u8>, at: int) -> Option<int> {
    if s[at] == BELL {
        Some(at + 1)
    } else if s[at] == ESCAPE && at + 1 < s.len() && s[at + 1] == BACKSLASH {
        Some(at + 2)
    } else {
        None
    }
}

/// The length up to and including the first terminator at or after `from`.
pub open spec fn osc_end_from(s: Seq<u8>, from: int) -> Option<int>
    decreases s.len() - from,
{
    if from >= s.len() {
        None
    } else if osc_terminator(s, from) is Some {
        osc_terminator(s, from)
    } else {
        osc_end_from(s, from + 1)
    }
}

/// The length of the operating system command that `s` starts with, once it is complete.
pub open spec fn osc_end(s: Seq<u8>) -> Option<int> {
    osc_end_from(s, 2)
}

/// Finds the end of the control sequence that `input` starts with.
pub fn csi_sequence_end(input: &[u8]) -> (r: Option<usize>)
    requires
        starts_csi(input@),
    ensures
        r is Some <==> csi_end(input@) is Some,
        r matches Some(n) ==> csi_end(input@) == Some(n as int) && 3 <= n <= input@.len(),
{
    let mut cursor: usize = 2;
    while cursor < input.len()
        invariant
            2 <= cursor <= input@.len(),
            csi_end(input@) == csi_end_from(input@, cursor as int),
        decreases input@.len() - cursor,
    {
        let byte: u8 = input[cursor];
        if 0x40 <= byte && byte <= 0x7e {
            return Some(cursor + 1);
        }
        cursor += 1;
    }
    None
}

/// Finds the end of the operating system command that `input` starts with.
pub fn osc_sequence_end(input: &[u8]) -> (r: Option<usize>)
    requires
        starts_osc(input@),
    ensures
        r is Some <==> osc_end(input@) is Some,
        r matches Some(n) ==> osc_end(input@) == Some(n as int) && 3 <= n <= input@.len(),
{
    let mut cursor: usize = 2;
    while cursor < input.len()
        invariant
            2 <= cursor <= input@.len(),
            osc_end(input@) == osc_end_from(input@, cursor as int),
        decreases input@.len() - cursor,
    {
        if input[cursor] == BELL {
            return Some(cursor + 1);
        }
        if input[cursor] == ESCAPE && cursor + 1 < input.len() && input[cursor + 1] == BACKSLASH {
            return Some(cursor + 2);
        }
        cursor += 1;
    }
    None
}

/// A complete control sequence lies within the bytes seen.
pub proof fn lemma_csi_end_bounds(s: Seq<u8>, from: int)
    requires
        0 <= from,
    ensures
        csi_end_from(s, from) matches Some(n) ==> from < n <= s.len(),
    decreases s.len() - from,
{
    if from < s.len() && !is_csi_final(s[from]) {
        lemma_csi_end_bounds(s, from + 1);
    }
}

/// A complete operating system command lies within the bytes seen.
pub proof fn lemma_osc_end_bounds(s: Seq<u8>, from: int)
    requires
        0 <= from,
    ensures
        osc_end_from(s, from) matches Some(n) ==> from < n <= s.len(),
    decreases s.len() - from,
{
    if from < s.len() && osc_terminator(s, from) is None {
        lemma_osc_end_bounds(s, from + 1);
    }
}

/// Where a control sequence ends does not depend on what follows it.
pub proof fn lemma_csi_end_extends(s: Seq<u8>, more: Seq<u8>, from: int)
    requires
        0 <= from,
        csi_end_from(s, from) is Some,
    ensures
        csi_end_from(s + more, from) == csi_end_from(s, from),
    decreases s.len() - from,
{
    if from < s.len() {
        assert((s + more)[from] == s[from]);
        if !is_csi_final(s[from]) {
            lemma_csi_end_extends(s, more, from + 1);
        }
    }
}

/// Where an operating system command ends does not depend on what follows it.
pub proof fn lemma_osc_end_extends(s: Seq<u8>, more: Seq<u8>, from: int)
    requires
        0 <= from,
        osc_end_from(s, from) is Some,
    ensures
        osc_end_from(s + more, from) == osc_end_from(s, from),
    decreases s.len() - from,
{
    if from < s.len() {
        assert((s + more)[from] == s[from]);
        if from + 1 < s.len() {
            assert((s + more)[from + 1] == s[from + 1]);
        }
        if osc_terminator(s, from) is None {
            lemma_osc_end_extends(s, more, from + 1);
        }
    }
}

} // verus!
