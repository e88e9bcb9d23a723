//! Whether the program in the sandbox has asked for bracketed paste.

use vstd::prelude::*;
use vstd::slice::slice_subrange;

use crate::session::relay::append_bytes;

verus! {

/// How many bytes switch bracketed paste on or off.
pub const SWITCH_LENGTH: usize = 8;

/// The bytes `ESC [ ? 2 0 0 4` that both switches start with.
pub open spec fn switch_prefix() -> Seq<u8> {
    seq![0x1bu8, 0x5b, 0x3f, 0x32, 0x30, 0x30, 0x34]
}

/// The bytes that switch bracketed paste on: the prefix and `h`.
pub open spec fn paste_enable() -> Seq<u8> {
    switch_prefix().push(0x68)
}

/// The bytes that switch bracketed paste off: the prefix and `l`.
pub open spec fn paste_disable() -> Seq<u8> {
    switch_prefix().push(0x6c)
}

/// The switch that ends at position `end` of `s`, where there is one.
pub open spec fn switch_at(s: Seq<u8>, end: int) -> Option<bool> {
    if end < SWITCH_LENGTH {
        None
    } else if s.subrange(end - SWITCH_LENGTH, end) == paste_enable() {
        Some(true)
    } else if s.subrange(end - SWITCH_LENGTH, end) == paste_disable() {
        Some(false)
    } else {
        None
    }
}

/// The mode after the output `s[..end]`: what the last switch in it says, or
/// `initial` where it holds none.
pub open spec fn mode_until(s: Seq<u8>, end: int, initial: bool) -> bool
    decreases end,
{
    if end <= 0 {
        initial
    } else {
        match switch_at(s, end) {
            Some(on) => on,
            None => mode_until(s, end - 1, initial),
        }
    }
}

/// The mode after the whole output `s`.
pub open spec fn mode_after(s: Seq<u8>, initial: bool) -> bool {
    mode_until(s, s.len() as int, initial)
}

/// The last bytes of `s` that may still become part of a switch.
pub open spec fn switch_tail(s: Seq<u8>) -> Seq<u8> {
    if s.len() < SWITCH_LENGTH {
        s
    } else {
        s.skip(s.len() - (SWITCH_LENGTH - 1))
    }
}

/// The mode of a prefix does not depend on what follows it.
proof fn lemma_mode_of_prefix(a: Seq<u8>, b: Seq<u8>, end: int, initial: bool)
    requires
        0 <= end <= a.len(),
    ensures
        mode_until(a + b, end, initial) == mode_until(a, end, initial),
    decreases end,
{
    if end > 0 {
        if end >= SWITCH_LENGTH {
            assert((a + b).subrange(end - SWITCH_LENGTH, end) =~= a.subrange(
                end - SWITCH_LENGTH,
                end,
            ));
        }
        lemma_mode_of_prefix(a, b, end - 1, initial);
    }
}

/// The bytes in front of a tail decide nothing but the mode that it starts from.
proof fn lemma_mode_from_tail(a: Seq<u8>, b: Seq<u8>, k: int, initial: bool)
    requires
        0 <= k <= b.len(),
    ensures
        mode_until(a + b, a.len() + k, initial) == mode_until(
            switch_tail(a) + b,
            switch_tail(a).len() + k,
            mode_after(a, initial),
        ),
    decreases k,
{
    let tail = switch_tail(a);
    let whole = a + b;
    let short = tail + b;
    if k == 0 {
        lemma_mode_of_prefix(a, b, a.len() as int, initial);
        lemma_no_switch_yet(short, tail.len() as int, mode_after(a, initial));
    } else {
        let end = a.len() + k;
        let short_end = tail.len() + k;
        if short_end >= SWITCH_LENGTH {
            assert(whole.subrange(end - SWITCH_LENGTH, end) =~= short.subrange(
                short_end - SWITCH_LENGTH,
                short_end,
            ));
        } else {
            assert(a.len() < SWITCH_LENGTH);
        }
        lemma_mode_from_tail(a, b, k - 1, initial);
    }
}

/// Fewer bytes than a switch has hold no switch.
proof fn lemma_no_switch_yet(s: Seq<u8>, end: int, initial: bool)
    requires
        end < SWITCH_LENGTH,
    ensures
        mode_until(s, end, initial) == initial,
    decreases end,
{
    if end > 0 {
        lemma_no_switch_yet(s, end - 1, initial);
    }
}

/// Watching output in two parts, with the tail of the first kept for the
/// second, finds the mode that watching all of it at once finds.
pub proof fn law_mode_survives_split_output(a: Seq<u8>, b: Seq<u8>, initial: bool)
    ensures
        mode_after(a + b, initial) == mode_after(switch_tail(a) + b, mode_after(a, initial)),
        switch_tail(a + b) == switch_tail(switch_tail(a) + b),
{
    lemma_mode_from_tail(a, b, b.len() as int, initial);
    assert(switch_tail(a + b) =~= switch_tail(switch_tail(a) + b));
}

/// All output parts, one after the other.
pub open spec fn joined(parts: Seq<Seq<u8>>) -> Seq<u8>
    decreases parts.len(),
{
    if parts.len() == 0 {
        Seq::empty()
    } else {
        joined(parts.drop_last()) + parts.last()
    }
}

/// The tail kept and the mode found after watching `parts` one by one.
pub open spec fn watched(parts: Seq<Seq<u8>>, initial: bool) -> (Seq<u8>, bool)
    decreases parts.len(),
{
    if parts.len() == 0 {
        (Seq::empty(), initial)
    } else {
        let (tail, mode) = watched(parts.drop_last(), initial);
        (switch_tail(tail + parts.last()), mode_after(tail + parts.last(), mode))
    }
}

/// However output is cut into reads, the mode found is the mode of all of it.
pub proof fn law_mode_is_that_of_all_output(parts: Seq<Seq<u8>>, initial: bool)
    ensures
        watched(parts, initial) == (
            switch_tail(joined(parts)),
            mode_after(joined(parts), initial),
        ),
    decreases parts.len(),
{
    if parts.len() > 0 {
        law_mode_is_that_of_all_output(parts.drop_last(), initial);
        law_mode_survives_split_output(joined(parts.drop_last()), parts.last(), initial);
    }
}

/// Finds the switch that starts at position `at`.
fn switch_at_start(s: &[u8], at: usize) -> (r: Option<bool>)
    requires
        at + SWITCH_LENGTH <= s@.len(),
    ensures
        r == switch_at(s@, at + SWITCH_LENGTH),
{
    let common = s[at] == 0x1b && s[at + 1] == 0x5b && s[at + 2] == 0x3f && s[at + 3] == 0x32
        && s[at + 4] == 0x30 && s[at + 5] == 0x30 && s[at + 6] == 0x34;
    let last: u8 = s[at + 7];
    let ghost w = s@.subrange(at as int, at + SWITCH_LENGTH);
    proof {
        assert forall|i: int| 0 <= i < SWITCH_LENGTH implies w[i] == s@[at + i] by {}
        if common && last == 0x68 {
            assert(w =~= paste_enable());
        } else if common && last == 0x6c {
            assert(w =~= paste_disable());
            assert(paste_enable()[7] == 0x68);
        } else {
            if w == paste_enable() || w == paste_disable() {
                assert(w[0] == 0x1b && w[1] == 0x5b && w[2] == 0x3f && w[3] == 0x32 && w[4] == 0x30
                    && w[5] == 0x30 && w[6] == 0x34);
                assert(w[7] == 0x68 || w[7] == 0x6c);
            }
        }
    }
    if common && last == 0x68 {
        Some(true)
    } else if common && last == 0x6c {
        Some(false)
    } else {
        None
    }
}

/// What is kept of the output between two reads.
#[derive(Debug)]
pub struct TerminalModes {
    pending: Vec<u8>,
}

impl Default for TerminalModes {
    fn default() -> (r: Self)
        ensures
            r.tail() == Seq::<u8>::empty(),
    {
        TerminalModes { pending: Vec::new() }
    }
}

impl TerminalModes {
    /// The bytes that may still become part of a switch.
    pub closed spec fn tail(&self) -> Seq<u8> {
        self.pending@
    }

    /// Watches one read of output and updates `bracketed_paste`.
    pub fn observe(&mut self, input: &[u8], bracketed_paste: &mut bool)
        ensures
            *final(bracketed_paste) == mode_after(old(self).tail() + input@, *old(bracketed_paste)),
            final(self).tail() == switch_tail(old(self).tail() + input@),
    {
        let mut bytes: Vec<u8> = Vec::new();
        std::mem::swap(&mut bytes, &mut self.pending);
        append_bytes(&mut bytes, input);
        let ghost initial = *bracketed_paste;
        let mut at: usize = 0;
        proof {
            if bytes@.len() < SWITCH_LENGTH {
                lemma_no_switch_yet(bytes@, bytes@.len() as int, initial);
            } else {
                lemma_no_switch_yet(bytes@, SWITCH_LENGTH - 1, initial);
            }
        }
        while at < bytes.len() && bytes.len() - at >= SWITCH_LENGTH
            invariant
                at <= bytes@.len(),
                at > 0 ==> at + SWITCH_LENGTH - 1 <= bytes@.len(),
                self.pending@ == Seq::<u8>::empty(),
                bytes@.len() < SWITCH_LENGTH ==> *bracketed_paste == mode_after(bytes@, initial),
                bytes@.len() >= SWITCH_LENGTH ==> *bracketed_paste == mode_until(
                    bytes@,
                    at + SWITCH_LENGTH - 1,
                    initial,
                ),
            decreases bytes@.len() - at,
        {
            match switch_at_start(bytes.as_slice(), at) {
                Some(on) => {
                    *bracketed_paste = on;
                },
                None => {},
            }
            at += 1;
        }
        let keep: usize = if bytes.len() < SWITCH_LENGTH {
            0
        } else {
            bytes.len() - (SWITCH_LENGTH - 1)
        };
        append_bytes(&mut self.pending, slice_subrange(bytes.as_slice(), keep, bytes.len()));
        assert(self.pending@ =~= switch_tail(bytes@));
    }
}

/// The last switch decides: behind `ESC [ ? 2 0 0 4 h` bracketed paste is on, behind
/// `ESC [ ? 2 0 0 4 l` off, whatever comes before, as long as no switch begins
/// later. Output without a switch leaves the mode as it was.
pub proof fn law_last_switch_decides(s: Seq<u8>, at: int, initial: bool)
    requires
        -1 <= at <= s.len() - 8 || at == -1,
        forall|i: int|
            at < i <= s.len() - 8 && 0 <= i ==> #[trigger] s.subrange(i, i + 8) != seq![
                0x1bu8,
                0x5b,
                0x3f,
                0x32,
                0x30,
                0x30,
                0x34,
                0x68,
            ] && s.subrange(i, i + 8) != seq![0x1bu8, 0x5b, 0x3f, 0x32, 0x30, 0x30, 0x34, 0x6c],
    ensures
        at == -1 ==> mode_after(s, initial) == initial,
        at >= 0 && s.subrange(at, at + 8) == seq![
            0x1bu8,
            0x5b,
            0x3f,
            0x32,
            0x30,
            0x30,
            0x34,
            0x68,
        ] ==> mode_after(s, initial),
        at >= 0 && s.subrange(at, at + 8) == seq![
            0x1bu8,
            0x5b,
            0x3f,
            0x32,
            0x30,
            0x30,
            0x34,
            0x6c,
        ] ==> !mode_after(s, initial),
{
    assert(paste_enable() =~= seq![0x1bu8, 0x5b, 0x3f, 0x32, 0x30, 0x30, 0x34, 0x68]);
    assert(paste_disable() =~= seq![0x1bu8, 0x5b, 0x3f, 0x32, 0x30, 0x30, 0x34, 0x6c]);
    assert(paste_enable()[7] != paste_disable()[7]);
    if at == -1 {
        lemma_no_switch_from(s, s.len() as int, 0, initial);
    } else {
        lemma_no_switch_from(s, s.len() as int, at + 8, initial);
    }
}

/// Without a switch that ends behind `from`, the mode there is the mode at `from`.
proof fn lemma_no_switch_from(s: Seq<u8>, end: int, from: int, initial: bool)
    requires
        0 <= from <= end <= s.len(),
        forall|i: int|
            from - 8 < i <= s.len() - 8 && 0 <= i ==> #[trigger] s.subrange(i, i + 8)
                != paste_enable() && s.subrange(i, i + 8) != paste_disable(),
    ensures
        mode_until(s, end, initial) == mode_until(s, from, initial),
    decreases end - from,
{
    if end > from {
        if end >= 8 {
            assert(s.subrange(end - 8, end - 8 + 8) != paste_enable());
        }
        lemma_no_switch_from(s, end - 1, from, initial);
    }
}

} // verus!
