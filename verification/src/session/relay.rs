//! The input relay: keystrokes go to the sandbox, the paste shortcut and the
//! terminal's own replies do not.

use vstd::prelude::*;
use vstd::slice::slice_subrange;

use crate::session::ascii::{
    CTRL_V, ESCAPE, LEFT_BRACKET, LOWER_V, RIGHT_BRACKET, UPPER_V,
};
use crate::session::escape;
use crate::session::escape::{csi_sequence_end, osc_sequence_end};
use crate::session::keys;
use crate::session::keys::{clipboard_shortcut_sequence, is_terminal_response, ShortcutSequence};

verus! {

/// An unfinished escape sequence of more bytes than this is no longer waited for.
pub const MAX_ESCAPE_SEQUENCE: usize = 256;

/// What becomes of a piece of input.
pub enum Piece {
    /// It goes to the sandbox as it is.
    Forward,
    /// It is the paste shortcut: it asks for one paste and goes nowhere.
    Paste,
    /// It is the release of the paste shortcut and goes nowhere.
    Release,
    /// It is a reply of the terminal and goes nowhere.
    Reply,
}

/// How a non-empty input starts.
pub enum Next {
    /// Its first `len` bytes are one piece.
    Take { piece: Piece, len: int },
    /// It is an unfinished escape sequence, to be kept for the next read.
    Hold,
}

/// What a control sequence with all its bytes is.
pub open spec fn csi_piece(sequence: Seq<u8>) -> Piece {
    match keys::shortcut_meaning(sequence) {
        ShortcutSequence::Press => Piece::Paste,
        ShortcutSequence::Release => Piece::Release,
        ShortcutSequence::Other => if keys::is_reply(sequence) {
            Piece::Reply
        } else {
            Piece::Forward
        },
    }
}

/// An escape sequence without an end in sight: it is kept, unless it is too long.
pub open spec fn unfinished(s: Seq<u8>) -> Next {
    if s.len() > MAX_ESCAPE_SEQUENCE {
        Next::Take { piece: Piece::Forward, len: 1 }
    } else {
        Next::Hold
    }
}

/// The first piece of the non-empty input `s`.
pub open spec fn next_piece(s: Seq<u8>) -> Next {
    if s[0] == CTRL_V {
        Next::Take { piece: Piece::Paste, len: 1 }
    } else if s[0] != ESCAPE || s.len() < 2 {
        Next::Take { piece: Piece::Forward, len: 1 }
    } else if s[1] == LOWER_V || s[1] == UPPER_V {
        Next::Take { piece: Piece::Paste, len: 2 }
    } else if s[1] == RIGHT_BRACKET {
        match escape::osc_end(s) {
            Some(n) => Next::Take { piece: Piece::Reply, len: n },
            None => unfinished(s),
        }
    } else if s[1] == LEFT_BRACKET {
        match escape::csi_end(s) {
            Some(n) => Next::Take { piece: csi_piece(s.take(n)), len: n },
            None => unfinished(s),
        }
    } else {
        Next::Take { piece: Piece::Forward, len: 1 }
    }
}

/// What the relay makes of an input.
#[verifier::ext_equal]
pub struct Relayed {
    /// The bytes for the sandbox.
    pub output: Seq<u8>,
    /// How many pastes were asked for.
    pub pastes: nat,
    /// Whether the terminal replied to a query.
    pub reply: bool,
    /// The bytes kept for the next read.
    pub held: Seq<u8>,
}

pub open spec fn nothing_relayed() -> Relayed {
    Relayed { output: Seq::empty(), pastes: 0, reply: false, held: Seq::empty() }
}

/// One piece with the bytes `bytes`, and then `rest`.
pub open spec fn then_relayed(piece: Piece, bytes: Seq<u8>, rest: Relayed) -> Relayed {
    match piece {
        Piece::Forward => Relayed { output: bytes + rest.output, ..rest },
        Piece::Paste => Relayed { pastes: rest.pastes + 1, ..rest },
        Piece::Release => rest,
        Piece::Reply => Relayed { reply: true, ..rest },
    }
}

/// What the relay makes of the input `s`, piece by piece.
pub open spec fn relay_of(s: Seq<u8>) -> Relayed
    decreases s.len(),
{
    if s.len() == 0 {
        nothing_relayed()
    } else {
        match next_piece(s) {
            Next::Hold => Relayed { held: s, ..nothing_relayed() },
            Next::Take { piece, len } => if 0 < len <= s.len() {
                then_relayed(piece, s.take(len), relay_of(s.skip(len)))
            } else {
                nothing_relayed()
            },
        }
    }
}

/// A piece has at least one byte and ends within the input.
pub proof fn lemma_next_piece_bounds(s: Seq<u8>)
    requires
        s.len() > 0,
    ensures
        next_piece(s) matches Next::Take { piece, len } ==> 0 < len <= s.len(),
{
    escape::lemma_csi_end_bounds(s, 2);
    escape::lemma_osc_end_bounds(s, 2);
}

/// `s` is what the relay may keep for the next read: nothing, or an unfinished
/// escape sequence of bounded length.
pub open spec fn may_be_held(s: Seq<u8>) -> bool {
    s.len() == 0 || (next_piece(s) is Hold && escape::starts_escape(s) && s.len()
        <= MAX_ESCAPE_SEQUENCE)
}

/// Whatever was read, the relay keeps nothing, or an unfinished escape sequence
/// of bounded length.
pub proof fn law_held_input_is_bounded(s: Seq<u8>)
    ensures
        may_be_held(relay_of(s).held),
    decreases s.len(),
{
    if s.len() > 0 {
        lemma_next_piece_bounds(s);
        if let Next::Take { piece, len } = next_piece(s) {
            law_held_input_is_bounded(s.skip(len));
        }
    }
}

/// Up to `cursor` the relay has done what `relay_of` says: it has written
/// `written` after `before`, owes the plain bytes from `plain_start` on, and has
/// counted `pastes` and noted `replied`.
#[verifier::opaque]
spec fn on_track(
    bytes: Seq<u8>,
    before: Seq<u8>,
    replied_before: bool,
    plain_start: int,
    cursor: int,
    written: Seq<u8>,
    pastes: nat,
    replied: bool,
) -> bool {
    let all = relay_of(bytes);
    let rest = relay_of(bytes.skip(cursor));
    &&& 0 <= plain_start <= cursor <= bytes.len()
    &&& before + all.output == written + bytes.subrange(plain_start, cursor) + rest.output
    &&& all.pastes == pastes + rest.pastes
    &&& (replied_before || all.reply) == (replied || rest.reply)
    &&& all.held == rest.held
}

proof fn lemma_track_start(bytes: Seq<u8>, before: Seq<u8>, replied: bool)
    ensures
        on_track(bytes, before, replied, 0, 0, before, 0, replied),
{
    reveal(on_track);
    assert(bytes.skip(0) =~= bytes);
    assert(before + relay_of(bytes).output =~= before + bytes.subrange(0, 0) + relay_of(
        bytes,
    ).output);
}

/// One step: a forwarded piece joins the plain bytes that are still to be
/// written; before any other piece they are written and the piece is left out;
/// an unfinished sequence is kept and ends the input.
proof fn lemma_track_step(
    bytes: Seq<u8>,
    before: Seq<u8>,
    replied_before: bool,
    plain_start: int,
    cursor: int,
    written: Seq<u8>,
    pastes: nat,
    replied: bool,
)
    requires
        0 <= plain_start <= cursor < bytes.len(),
        on_track(bytes, before, replied_before, plain_start, cursor, written, pastes, replied),
    ensures
        ({
            let plain = bytes.subrange(plain_start, cursor);
            match next_piece(bytes.skip(cursor)) {
                Next::Hold => {
                    &&& before + relay_of(bytes).output == written + plain
                    &&& relay_of(bytes).pastes == pastes
                    &&& (replied_before || relay_of(bytes).reply) == replied
                    &&& relay_of(bytes).held == bytes.skip(cursor)
                },
                Next::Take { piece: Piece::Forward, len } => on_track(
                    bytes,
                    before,
                    replied_before,
                    plain_start,
                    cursor + len,
                    written,
                    pastes,
                    replied,
                ),
                Next::Take { piece, len } => on_track(
                    bytes,
                    before,
                    replied_before,
                    cursor + len,
                    cursor + len,
                    written + plain,
                    if piece is Paste {
                        pastes + 1
                    } else {
                        pastes
                    },
                    replied || piece is Reply,
                ),
            }
        }),
{
    reveal(on_track);
    let rest = bytes.skip(cursor);
    let plain = bytes.subrange(plain_start, cursor);
    lemma_next_piece_bounds(rest);
    match next_piece(rest) {
        Next::Hold => {
            assert(written + plain + Seq::<u8>::empty() =~= written + plain);
        },
        Next::Take { piece, len } => {
            let end = cursor + len;
            let later = relay_of(rest.skip(len));
            assert(rest.skip(len) =~= bytes.skip(end));
            assert(relay_of(rest) == then_relayed(piece, rest.take(len), later));
            if piece is Forward {
                lemma_plain_grows(bytes, plain_start, cursor, end, written, later.output);
            } else {
                assert(bytes.subrange(end, end) =~= Seq::<u8>::empty());
                assert((written + plain) + Seq::<u8>::empty() =~= written + plain);
            }
        },
    }
}

proof fn lemma_plain_grows(
    bytes: Seq<u8>,
    start: int,
    middle: int,
    end: int,
    written: Seq<u8>,
    out: Seq<u8>,
)
    requires
        0 <= start <= middle <= end <= bytes.len(),
    ensures
        written + bytes.subrange(start, middle) + (bytes.skip(middle).take(end - middle) + out)
            == written + bytes.subrange(start, end) + out,
{
    assert(written + bytes.subrange(start, middle) + (bytes.skip(middle).take(end - middle) + out)
        =~= written + bytes.subrange(start, end) + out);
}

/// At the end of the input only plain bytes are left to write.
proof fn lemma_track_end(
    bytes: Seq<u8>,
    before: Seq<u8>,
    replied_before: bool,
    plain_start: int,
    written: Seq<u8>,
    pastes: nat,
    replied: bool,
)
    requires
        on_track(
            bytes,
            before,
            replied_before,
            plain_start,
            bytes.len() as int,
            written,
            pastes,
            replied,
        ),
    ensures
        before + relay_of(bytes).output == written + bytes.subrange(
            plain_start,
            bytes.len() as int,
        ),
        relay_of(bytes).pastes == pastes,
        (replied_before || relay_of(bytes).reply) == replied,
        relay_of(bytes).held == Seq::<u8>::empty(),
{
    reveal(on_track);
    let plain = written + bytes.subrange(plain_start, bytes.len() as int);
    assert(bytes.skip(bytes.len() as int) =~= Seq::<u8>::empty());
    assert(plain + Seq::<u8>::empty() =~= plain);
}

/// Appends the bytes of `part`.
pub fn append_bytes(to: &mut Vec<u8>, part: &[u8])
    ensures
        final(to)@ == old(to)@ + part@,
{
    to.extend_from_slice(part);
    assert(to@ =~= old(to)@ + part@);
}

/// Appends `bytes[from..to]`.
fn append_range(writer: &mut Vec<u8>, bytes: &Vec<u8>, from: usize, to: usize)
    requires
        from <= to <= bytes@.len(),
    ensures
        final(writer)@ == old(writer)@ + bytes@.subrange(from as int, to as int),
{
    append_bytes(writer, slice_subrange(bytes.as_slice(), from, to));
}

/// The state of the input relay between two reads.
#[derive(Debug)]
pub struct InputRelay {
    pending: Vec<u8>,
    terminal_response: bool,
}

impl Default for InputRelay {
    fn default() -> (r: Self)
        ensures
            r.held() == Seq::<u8>::empty(),
            !r.replied(),
            r.wf(),
    {
        InputRelay { pending: Vec::new(), terminal_response: false }
    }
}

impl InputRelay {
    /// The bytes kept from earlier reads.
    pub closed spec fn held(&self) -> Seq<u8> {
        self.pending@
    }

    /// Whether the terminal has replied since this was last asked.
    pub closed spec fn replied(&self) -> bool {
        self.terminal_response
    }

    /// Only an unfinished escape sequence of bounded length is kept.
    pub open spec fn wf(&self) -> bool {
        may_be_held(self.held())
    }

    /// Relays one read of input: appends to `writer` what the sandbox gets, and
    /// returns how many pastes were asked for. With the clipboard disabled
    /// everything passes through untouched.
    pub fn forward(&mut self, writer: &mut Vec<u8>, input: &[u8], clipboard_enabled: bool) -> (r:
        usize)
        ensures
            final(self).wf(),
            !clipboard_enabled ==> {
                &&& final(writer)@ == old(writer)@ + old(self).held() + input@
                &&& r == 0
                &&& final(self).held() == Seq::<u8>::empty()
                &&& final(self).replied() == old(self).replied()
            },
            clipboard_enabled ==> {
                let relayed = relay_of(old(self).held() + input@);
                &&& final(writer)@ == old(writer)@ + relayed.output
                &&& r == relayed.pastes
                &&& final(self).held() == relayed.held
                &&& final(self).replied() == (old(self).replied() || relayed.reply)
            },
    {
        let mut bytes: Vec<u8> = Vec::new();
        std::mem::swap(&mut bytes, &mut self.pending);
        if !clipboard_enabled {
            append_bytes(writer, bytes.as_slice());
            append_bytes(writer, input);
            return 0;
        }
        append_bytes(&mut bytes, input);
        let ghost before = writer@;
        let mut plain_start: usize = 0;
        let mut cursor: usize = 0;
        let mut paste_count: usize = 0;
        proof {
            lemma_track_start(bytes@, before, self.terminal_response);
            law_held_input_is_bounded(bytes@);
        }
        while cursor < bytes.len()
            invariant
                clipboard_enabled,
                bytes@ == old(self).held() + input@,
                before == old(writer)@,
                may_be_held(relay_of(bytes@).held),
                self.pending@ == Seq::<u8>::empty(),
                plain_start <= cursor <= bytes@.len(),
                paste_count <= cursor,
                on_track(
                    bytes@,
                    before,
                    old(self).replied(),
                    plain_start as int,
                    cursor as int,
                    writer@,
                    paste_count as nat,
                    self.terminal_response,
                ),
            decreases bytes@.len() - cursor,
        {
            let ghost rest = bytes@.skip(cursor as int);
            proof {
                lemma_next_piece_bounds(rest);
                lemma_track_step(
                    bytes@,
                    before,
                    old(self).replied(),
                    plain_start as int,
                    cursor as int,
                    writer@,
                    paste_count as nat,
                    self.terminal_response,
                );
                assert(rest[0] == bytes@[cursor as int]);
                if cursor + 1 < bytes.len() {
                    assert(rest[1] == bytes@[cursor + 1]);
                }
            }
            let escaped = bytes[cursor] == ESCAPE && cursor + 1 < bytes.len();
            if escaped && (bytes[cursor + 1] == LOWER_V || bytes[cursor + 1] == UPPER_V) {
                append_range(writer, &bytes, plain_start, cursor);
                paste_count += 1;
                cursor += 2;
                plain_start = cursor;
                continue ;
            }
            if bytes[cursor] == CTRL_V {
                append_range(writer, &bytes, plain_start, cursor);
                paste_count += 1;
                cursor += 1;
                plain_start = cursor;
                continue ;
            }
            let osc = escaped && bytes[cursor + 1] == RIGHT_BRACKET;
            let csi = escaped && bytes[cursor + 1] == LEFT_BRACKET;
            if !osc && !csi {
                cursor += 1;
                continue ;
            }
            let tail = slice_subrange(bytes.as_slice(), cursor, bytes.len());
            assert(tail@ =~= rest);
            let end = if osc {
                osc_sequence_end(tail)
            } else {
                csi_sequence_end(tail)
            };
            let length: usize = match end {
                Some(length) => length,
                None => {
                    if bytes.len() - cursor > MAX_ESCAPE_SEQUENCE {
                        cursor += 1;
                        continue ;
                    }
                    append_range(writer, &bytes, plain_start, cursor);
                    append_bytes(&mut self.pending, tail);
                    assert(self.pending@ =~= rest);
                    return paste_count;
                },
            };
            let sequence_end: usize = cursor + length;
            let sequence = slice_subrange(bytes.as_slice(), cursor, sequence_end);
            assert(sequence@ =~= rest.take(length as int));
            let shortcut = if osc {
                ShortcutSequence::Other
            } else {
                clipboard_shortcut_sequence(sequence)
            };
            let response = shortcut == ShortcutSequence::Other && (osc || is_terminal_response(
                sequence,
            ));
            match shortcut {
                ShortcutSequence::Press => {
                    append_range(writer, &bytes, plain_start, cursor);
                    paste_count += 1;
                    plain_start = sequence_end;
                },
                ShortcutSequence::Release => {
                    append_range(writer, &bytes, plain_start, cursor);
                    plain_start = sequence_end;
                },
                ShortcutSequence::Other => {
                    if response {
                        append_range(writer, &bytes, plain_start, cursor);
                        self.terminal_response = true;
                        plain_start = sequence_end;
                    }
                },
            }
            cursor = sequence_end;
        }
        proof {
            lemma_track_end(
                bytes@,
                before,
                old(self).replied(),
                plain_start as int,
                writer@,
                paste_count as nat,
                self.terminal_response,
            );
        }
        append_range(writer, &bytes, plain_start, bytes.len());
        paste_count
    }

    /// Whether the terminal has replied since this was last asked.
    pub fn take_terminal_response(&mut self) -> (r: bool)
        ensures
            r == old(self).replied(),
            !final(self).replied(),
            final(self).held() == old(self).held(),
    {
        let r = self.terminal_response;
        self.terminal_response = false;
        r
    }
}

} // verus!
