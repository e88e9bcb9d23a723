//! What holds of the input relay as a whole, however the input is read.

use vstd::prelude::*;

use crate::session::ascii::{
    COLON, CTRL_V, ESCAPE, LOWER_U, LOWER_V, QUESTION, SEMICOLON, UPPER_V,
};
use crate::session::escape;
use crate::session::keys;
use crate::session::keys::ShortcutSequence;
use crate::session::relay;
use crate::session::relay::{Next, Piece, Relayed, MAX_ESCAPE_SEQUENCE};

verus! {

/// The pieces that the relay takes from `s`, each with its bytes.
pub open spec fn pieces_of(s: Seq<u8>) -> Seq<(Piece, Seq<u8>)>
    decreases s.len(),
{
    if s.len() == 0 {
        Seq::empty()
    } else {
        match relay::next_piece(s) {
            Next::Hold => Seq::empty(),
            Next::Take { piece, len } => if 0 < len <= s.len() {
                seq![(piece, s.take(len))] + pieces_of(s.skip(len))
            } else {
                Seq::empty()
            },
        }
    }
}

/// Every piece of the read `a` is the same when the read goes on with `b`.
pub open spec fn cut_is_clean(a: Seq<u8>, b: Seq<u8>) -> bool
    decreases a.len(),
{
    if a.len() == 0 {
        true
    } else {
        match relay::next_piece(a) {
            Next::Hold => true,
            Next::Take { piece, len } => {
                &&& relay::next_piece(a + b) == relay::next_piece(a)
                &&& 0 < len <= a.len() ==> cut_is_clean(a.skip(len), b)
            },
        }
    }
}

/// What two reads after each other make of their inputs, taken together.
pub open spec fn both_relayed(first: Relayed, second: Relayed) -> Relayed {
    Relayed {
        output: first.output + second.output,
        pastes: first.pastes + second.pastes,
        reply: first.reply || second.reply,
        held: second.held,
    }
}

/// The bytes of all pieces, one after the other.
pub open spec fn bytes_of(pieces: Seq<(Piece, Seq<u8>)>) -> Seq<u8>
    decreases pieces.len(),
{
    if pieces.len() == 0 {
        Seq::empty()
    } else {
        pieces[0].1 + bytes_of(pieces.skip(1))
    }
}

/// The bytes of the forwarded pieces, one after the other.
pub open spec fn forwarded_of(pieces: Seq<(Piece, Seq<u8>)>) -> Seq<u8>
    decreases pieces.len(),
{
    if pieces.len() == 0 {
        Seq::empty()
    } else if pieces[0].0 is Forward {
        pieces[0].1 + forwarded_of(pieces.skip(1))
    } else {
        forwarded_of(pieces.skip(1))
    }
}

/// Every byte of the input is accounted for, in order: it belongs to one piece
/// or is kept for the next read. The sandbox gets the forwarded pieces and
/// nothing else.
pub proof fn law_every_byte_is_accounted_for(s: Seq<u8>)
    ensures
        bytes_of(pieces_of(s)) + relay::relay_of(s).held == s,
        relay::relay_of(s).output == forwarded_of(pieces_of(s)),
    decreases s.len(),
{
    if s.len() == 0 {
        assert(bytes_of(pieces_of(s)) + relay::relay_of(s).held =~= s);
    } else {
        relay::lemma_next_piece_bounds(s);
        match relay::next_piece(s) {
            Next::Hold => {
                assert(bytes_of(pieces_of(s)) + relay::relay_of(s).held =~= s);
            },
            Next::Take { piece, len } => {
                law_every_byte_is_accounted_for(s.skip(len));
                let tail = pieces_of(s.skip(len));
                assert(pieces_of(s).skip(1) =~= tail);
                assert(bytes_of(pieces_of(s)) + relay::relay_of(s).held =~= s.take(len) + (
                bytes_of(tail) + relay::relay_of(s.skip(len)).held));
                assert(s.take(len) + s.skip(len) =~= s);
            },
        }
    }
}

/// The pieces that the relay takes from all `reads`, and what it keeps then.
pub open spec fn reads_relayed(reads: Seq<Seq<u8>>) -> (Seq<(Piece, Seq<u8>)>, Seq<u8>)
    decreases reads.len(),
{
    if reads.len() == 0 {
        (Seq::empty(), Seq::empty())
    } else {
        let (pieces, held) = reads_relayed(reads.drop_last());
        let input = held + reads.last();
        (pieces + pieces_of(input), relay::relay_of(input).held)
    }
}

/// All reads, one after the other.
pub open spec fn all_input(reads: Seq<Seq<u8>>) -> Seq<u8>
    decreases reads.len(),
{
    if reads.len() == 0 {
        Seq::empty()
    } else {
        all_input(reads.drop_last()) + reads.last()
    }
}

proof fn lemma_bytes_of_both(first: Seq<(Piece, Seq<u8>)>, second: Seq<(Piece, Seq<u8>)>)
    ensures
        bytes_of(first + second) == bytes_of(first) + bytes_of(second),
    decreases first.len(),
{
    if first.len() == 0 {
        assert(first + second =~= second);
        assert(bytes_of(first) + bytes_of(second) =~= bytes_of(second));
    } else {
        assert((first + second).skip(1) =~= first.skip(1) + second);
        lemma_bytes_of_both(first.skip(1), second);
        assert(bytes_of(first + second) =~= bytes_of(first) + bytes_of(second));
    }
}

/// However the input is cut into reads, no byte is lost, repeated or moved: all
/// pieces of all reads, with what is kept at the end, are the whole input.
pub proof fn law_no_byte_is_lost_between_reads(reads: Seq<Seq<u8>>)
    ensures
        bytes_of(reads_relayed(reads).0) + reads_relayed(reads).1 == all_input(reads),
    decreases reads.len(),
{
    if reads.len() == 0 {
        assert(bytes_of(reads_relayed(reads).0) + reads_relayed(reads).1 =~= all_input(reads));
    } else {
        let (pieces, held) = reads_relayed(reads.drop_last());
        let input = held + reads.last();
        let kept = relay::relay_of(input).held;
        law_no_byte_is_lost_between_reads(reads.drop_last());
        law_every_byte_is_accounted_for(input);
        lemma_bytes_of_both(pieces, pieces_of(input));
        assert(bytes_of(pieces) + bytes_of(pieces_of(input)) + kept =~= bytes_of(pieces) + input);
        assert(bytes_of(pieces) + input =~= all_input(reads));
    }
}

/// Two lists of pieces are the same if their first pieces and the rests are.
proof fn lemma_first_piece_and_rest(
    x: (Piece, Seq<u8>),
    y: (Piece, Seq<u8>),
    s: Seq<(Piece, Seq<u8>)>,
    t: Seq<(Piece, Seq<u8>)>,
)
    ensures
        seq![x] + s == seq![y] + t <==> x == y && s == t,
{
    let left = seq![x] + s;
    let right = seq![y] + t;
    if left == right {
        assert(left[0] == x && right[0] == y);
        assert(left.skip(1) =~= s);
        assert(right.skip(1) =~= t);
    }
}

/// The pieces of a non-empty input, with its first piece apart.
proof fn lemma_pieces_unfold(s: Seq<u8>)
    requires
        s.len() > 0,
    ensures
        match relay::next_piece(s) {
            Next::Hold => pieces_of(s) == Seq::<(Piece, Seq<u8>)>::empty()
                && relay::relay_of(s).held == s,
            Next::Take { piece, len } => {
                &&& 0 < len <= s.len()
                &&& pieces_of(s) == seq![(piece, s.take(len))] + pieces_of(s.skip(len))
                &&& relay::relay_of(s).held == relay::relay_of(s.skip(len)).held
            },
        },
{
    relay::lemma_next_piece_bounds(s);
}

/// Reading `a` and then `b` takes exactly the pieces that reading both at once
/// takes, if and only if no piece of `a` depends on what follows it. See
/// [`law_reads_cut_cleanly`] for when that is so.
pub proof fn law_split_reads_take_the_same_pieces(a: Seq<u8>, b: Seq<u8>)
    ensures
        pieces_of(a + b) == pieces_of(a) + pieces_of(relay::relay_of(a).held + b)
            <==> cut_is_clean(a, b),
    decreases a.len(),
{
    let held = relay::relay_of(a).held;
    let later = pieces_of(held + b);
    if a.len() == 0 {
        assert(a + b =~= b);
        assert(held + b =~= b);
        assert(pieces_of(a) + later =~= later);
    } else {
        lemma_pieces_unfold(a);
        lemma_pieces_unfold(a + b);
        match relay::next_piece(a) {
            Next::Hold => {
                assert(pieces_of(a) + later =~= later);
            },
            Next::Take { piece, len } => {
                let first = (piece, a.take(len));
                let tail = pieces_of(a.skip(len)) + later;
                assert(pieces_of(a) + later =~= seq![first] + tail);
                match relay::next_piece(a + b) {
                    Next::Hold => {
                        assert((seq![first] + tail).len() > 0);
                    },
                    Next::Take { piece: other, len: other_len } => {
                        let other_first = (other, (a + b).take(other_len));
                        lemma_first_piece_and_rest(
                            other_first,
                            first,
                            pieces_of((a + b).skip(other_len)),
                            tail,
                        );
                        if other_len == len {
                            assert((a + b).skip(len) =~= a.skip(len) + b);
                            assert((a + b).take(len) =~= a.take(len));
                            law_split_reads_take_the_same_pieces(a.skip(len), b);
                        } else {
                            assert(other_first.1.len() != first.1.len());
                        }
                    },
                }
            },
        }
    }
}

/// Where the cut between two reads is clean, they give the sandbox the same
/// bytes, ask for the same pastes, note the same replies and keep the same
/// bytes as one read of both.
pub proof fn law_split_reads_relay_the_same(a: Seq<u8>, b: Seq<u8>)
    requires
        cut_is_clean(a, b),
    ensures
        relay::relay_of(a + b) == both_relayed(
            relay::relay_of(a),
            relay::relay_of(relay::relay_of(a).held + b),
        ),
    decreases a.len(),
{
    let held = relay::relay_of(a).held;
    let second = relay::relay_of(held + b);
    if a.len() == 0 {
        assert(a + b =~= b);
        assert(held + b =~= b);
        assert(relay::relay_of(a + b) =~= both_relayed(relay::relay_of(a), second));
    } else {
        relay::lemma_next_piece_bounds(a);
        match relay::next_piece(a) {
            Next::Hold => {
                assert(relay::relay_of(a + b) =~= both_relayed(relay::relay_of(a), second));
            },
            Next::Take { piece, len } => {
                law_split_reads_relay_the_same(a.skip(len), b);
                assert((a + b).skip(len) =~= a.skip(len) + b);
                assert((a + b).take(len) =~= a.take(len));
                assert(relay::relay_of(a + b) =~= both_relayed(relay::relay_of(a), second));
            },
        }
    }
}

/// `s` starts an escape sequence and does not hold its end.
pub open spec fn lacks_its_end(s: Seq<u8>) -> bool {
    ||| escape::starts_csi(s) && escape::csi_end(s) is None
    ||| escape::starts_osc(s) && escape::osc_end(s) is None
}

/// No escape sequence in `a` goes on unfinished for longer than is waited for.
pub open spec fn unfinished_is_short(a: Seq<u8>) -> bool {
    forall|i: int|
        0 <= i <= a.len() && lacks_its_end(#[trigger] a.skip(i)) ==> a.len() - i
            <= MAX_ESCAPE_SEQUENCE
}

/// The cut after a read is clean, whatever follows and however long the read is,
/// unless it ends in an escape byte or in an unfinished escape sequence too long
/// to wait for.
pub proof fn law_reads_cut_cleanly(a: Seq<u8>, b: Seq<u8>)
    requires
        a.len() > 0 ==> a.last() != ESCAPE,
        unfinished_is_short(a),
    ensures
        cut_is_clean(a, b),
    decreases a.len(),
{
    if a.len() > 0 {
        relay::lemma_next_piece_bounds(a);
        assert(a.skip(0) =~= a);
        if let Next::Take { piece, len } = relay::next_piece(a) {
            assert((a + b)[0] == a[0]);
            if a.len() >= 2 {
                assert((a + b)[1] == a[1]);
            }
            if escape::starts_csi(a) {
                escape::lemma_csi_end_extends(a, b, 2);
                assert((a + b).take(len) =~= a.take(len));
            } else if escape::starts_osc(a) {
                escape::lemma_osc_end_extends(a, b, 2);
            }
            let rest = a.skip(len);
            if len < a.len() {
                assert(rest.last() == a.last());
            }
            assert forall|i: int| 0 <= i <= rest.len() && lacks_its_end(
                #[trigger] rest.skip(i),
            ) implies rest.len() - i <= MAX_ESCAPE_SEQUENCE by {
                assert(rest.skip(i) =~= a.skip(len + i));
            }
            law_reads_cut_cleanly(rest, b);
        }
    }
}

/// A read of at most the length that is waited for, and that does not end in an
/// escape byte, can be followed by anything: the cut after it is clean.
pub proof fn law_short_reads_cut_cleanly(a: Seq<u8>, b: Seq<u8>)
    requires
        a.len() <= MAX_ESCAPE_SEQUENCE,
        a.len() > 0 ==> a.last() != ESCAPE,
    ensures
        cut_is_clean(a, b),
{
    law_reads_cut_cleanly(a, b);
}

/// Input without an escape byte and without Ctrl+V reaches the sandbox
/// unchanged, and at once.
pub proof fn law_plain_input_passes_through(s: Seq<u8>)
    requires
        forall|i: int| 0 <= i < s.len() ==> s[i] != ESCAPE && s[i] != CTRL_V,
    ensures
        relay::relay_of(s) == (Relayed { output: s, ..relay::nothing_relayed() }),
    decreases s.len(),
{
    if s.len() > 0 {
        law_plain_input_passes_through(s.skip(1));
        assert(s.take(1) + s.skip(1) =~= s);
    }
    assert(relay::relay_of(s) =~= (Relayed { output: s, ..relay::nothing_relayed() }));
}

/// `s` is one complete control sequence.
pub open spec fn is_complete_csi(s: Seq<u8>) -> bool {
    escape::starts_csi(s) && escape::csi_end(s) == Some(s.len() as int)
}

/// `s` is one complete operating system command.
pub open spec fn is_complete_osc(s: Seq<u8>) -> bool {
    escape::starts_osc(s) && escape::osc_end(s) == Some(s.len() as int)
}

proof fn lemma_complete_sequence_is_next(s: Seq<u8>, rest: Seq<u8>)
    requires
        is_complete_csi(s) || is_complete_osc(s),
    ensures
        is_complete_csi(s) ==> relay::next_piece(s + rest) == (Next::Take {
            piece: relay::csi_piece(s),
            len: s.len() as int,
        }),
        is_complete_osc(s) ==> relay::next_piece(s + rest) == (Next::Take {
            piece: Piece::Reply,
            len: s.len() as int,
        }),
        (s + rest).skip(s.len() as int) == rest,
        (s + rest).take(s.len() as int) == s,
{
    assert((s + rest)[0] == s[0]);
    assert((s + rest)[1] == s[1]);
    assert((s + rest).skip(s.len() as int) =~= rest);
    assert((s + rest).take(s.len() as int) =~= s);
    if is_complete_csi(s) {
        escape::lemma_csi_end_extends(s, rest, 2);
    } else {
        escape::lemma_osc_end_extends(s, rest, 2);
    }
}

/// The encodings of the paste shortcut: Ctrl+V, escape and `v` in either case,
/// and every control sequence that means a press of it.
pub open spec fn is_paste_shortcut(s: Seq<u8>) -> bool {
    ||| s == seq![CTRL_V]
    ||| s == seq![ESCAPE, LOWER_V]
    ||| s == seq![ESCAPE, UPPER_V]
    ||| is_complete_csi(s) && keys::shortcut_meaning(s) == ShortcutSequence::Press
}

/// Every encoding of the paste shortcut asks for exactly one paste, and none of
/// its bytes reaches the sandbox.
pub proof fn law_paste_shortcut_is_intercepted(s: Seq<u8>, rest: Seq<u8>)
    requires
        is_paste_shortcut(s),
    ensures
        relay::relay_of(s + rest) == (Relayed {
            pastes: relay::relay_of(rest).pastes + 1,
            ..relay::relay_of(rest)
        }),
{
    assert((s + rest).skip(s.len() as int) =~= rest);
    assert((s + rest)[0] == s[0]);
    if is_complete_csi(s) && keys::shortcut_meaning(s) == ShortcutSequence::Press {
        lemma_complete_sequence_is_next(s, rest);
    } else if s == seq![CTRL_V] {
    } else {
        assert((s + rest)[1] == s[1]);
    }
}

/// The release of the paste shortcut is discarded.
pub proof fn law_shortcut_release_is_discarded(s: Seq<u8>, rest: Seq<u8>)
    requires
        is_complete_csi(s),
        keys::shortcut_meaning(s) == ShortcutSequence::Release,
    ensures
        relay::relay_of(s + rest) == relay::relay_of(rest),
{
    lemma_complete_sequence_is_next(s, rest);
}

/// The replies of the terminal: every operating system command, and the control
/// sequences that answer a query.
pub open spec fn is_terminal_reply(s: Seq<u8>) -> bool {
    is_complete_osc(s) || (is_complete_csi(s) && keys::is_reply(s))
}

/// No reply is mistaken for the paste shortcut.
proof fn lemma_reply_is_no_shortcut(s: Seq<u8>)
    requires
        keys::is_reply(s),
    ensures
        keys::shortcut_meaning(s) == ShortcutSequence::Other,
{
    let parameters = keys::csi_parameters(s)->0;
    if s.last() == LOWER_U {
        assert(parameters[0] == QUESTION);
        let field = keys::split_on(parameters, SEMICOLON)[0];
        assert(keys::first_index(parameters, SEMICOLON) >= 1) by {
            lemma_first_index_nonneg(parameters.skip(1), SEMICOLON);
        }
        assert(field.len() >= 1 && field[0] == QUESTION);
        let number = keys::split_on(field, COLON)[0];
        assert(keys::first_index(field, COLON) >= 1) by {
            lemma_first_index_nonneg(field.skip(1), COLON);
        }
        assert(number.len() >= 1 && number[0] == QUESTION);
        assert(!keys::is_digit(number[0]));
        assert(keys::number_of(number) is None);
    }
}

proof fn lemma_first_index_nonneg(s: Seq<u8>, sep: u8)
    ensures
        0 <= keys::first_index(s, sep) <= s.len(),
    decreases s.len(),
{
    if s.len() > 0 && s[0] != sep {
        lemma_first_index_nonneg(s.skip(1), sep);
    }
}

/// A reply of the terminal never becomes input of the sandbox: it is noted, and
/// none of its bytes is forwarded.
pub proof fn law_terminal_reply_is_not_forwarded(s: Seq<u8>, rest: Seq<u8>)
    requires
        is_terminal_reply(s),
    ensures
        relay::relay_of(s + rest) == (Relayed { reply: true, ..relay::relay_of(rest) }),
{
    lemma_complete_sequence_is_next(s, rest);
    if is_complete_csi(s) && keys::is_reply(s) {
        lemma_reply_is_no_shortcut(s);
    }
}

/// Every other control sequence passes through unchanged.
pub proof fn law_other_sequences_pass_through(s: Seq<u8>, rest: Seq<u8>)
    requires
        is_complete_csi(s),
        keys::shortcut_meaning(s) == ShortcutSequence::Other,
        !keys::is_reply(s),
    ensures
        relay::relay_of(s + rest) == (Relayed {
            output: s + relay::relay_of(rest).output,
            ..relay::relay_of(rest)
        }),
{
    lemma_complete_sequence_is_next(s, rest);
}

} // verus!
