//! What the input relay makes of every kind of input, told in the bytes that
//! terminals send.

use vstd::prelude::*;

use crate::session::escape;
use crate::session::keys;
use crate::session::keys::ShortcutSequence;
use crate::session::relay;
use crate::session::relay::Relayed;

verus! {

/// A byte that is neither Ctrl+V nor an escape byte is forwarded.
pub proof fn law_other_bytes_are_forwarded(b: u8, rest: Seq<u8>)
    requires
        b != 0x16,
        b != 0x1b,
    ensures
        relay::relay_of(seq![b] + rest) == (Relayed {
            output: seq![b] + relay::relay_of(rest).output,
            ..relay::relay_of(rest)
        }),
{
    let s = seq![b] + rest;
    assert(s[0] == b);
    assert(s.take(1) =~= seq![b]);
    assert(s.skip(1) =~= rest);
}

/// Ctrl+V asks for one paste and is left out.
pub proof fn law_ctrl_v_asks_for_a_paste(rest: Seq<u8>)
    ensures
        relay::relay_of(seq![0x16u8] + rest) == (Relayed {
            pastes: relay::relay_of(rest).pastes + 1,
            ..relay::relay_of(rest)
        }),
{
    let s = seq![0x16u8] + rest;
    assert(s[0] == 0x16);
    assert(s.skip(1) =~= rest);
}

/// An escape byte and `v` or `V`, which is Alt+V, ask for one paste and are left
/// out.
pub proof fn law_alt_v_asks_for_a_paste(v: u8, rest: Seq<u8>)
    requires
        v == 0x76 || v == 0x56,
    ensures
        relay::relay_of(seq![0x1bu8, v] + rest) == (Relayed {
            pastes: relay::relay_of(rest).pastes + 1,
            ..relay::relay_of(rest)
        }),
{
    let s = seq![0x1bu8, v] + rest;
    assert(s[0] == 0x1b && s[1] == v);
    assert(s.skip(2) =~= rest);
}

/// An escape byte in front of any other byte than `v`, `V`, `[` and `]`, or at the
/// end of the input, is forwarded, and what follows it is relayed by itself.
pub proof fn law_other_escapes_are_forwarded(b: u8, rest: Seq<u8>)
    requires
        b != 0x76,
        b != 0x56,
        b != 0x5b,
        b != 0x5d,
    ensures
        relay::relay_of(seq![0x1bu8, b] + rest) == (Relayed {
            output: seq![0x1bu8] + relay::relay_of(seq![b] + rest).output,
            ..relay::relay_of(seq![b] + rest)
        }),
        relay::relay_of(seq![0x1bu8]) == (Relayed {
            output: seq![0x1bu8],
            pastes: 0,
            reply: false,
            held: Seq::empty(),
        }),
{
    let s = seq![0x1bu8, b] + rest;
    assert(s[0] == 0x1b && s[1] == b);
    assert(s.take(1) =~= seq![0x1bu8]);
    assert(s.skip(1) =~= seq![b] + rest);
    let lone = seq![0x1bu8];
    assert(lone.take(1) =~= lone);
    assert(lone.skip(1) =~= Seq::<u8>::empty());
    assert(relay::relay_of(lone.skip(1)) == relay::nothing_relayed());
    assert(relay::relay_of(lone).output =~= lone);
}

proof fn lemma_csi_ends_at_final(parameters: Seq<u8>, last: u8, rest: Seq<u8>, k: int)
    requires
        forall|i: int|
            0 <= i < parameters.len() ==> !(0x40 <= #[trigger] parameters[i] <= 0x7e),
        0x40 <= last <= 0x7e,
        0 <= k <= parameters.len(),
    ensures
        escape::csi_end_from(seq![0x1bu8, 0x5b] + parameters + seq![last] + rest, 2 + k) == Some(
            (parameters.len() + 3) as int,
        ),
    decreases parameters.len() - k,
{
    let s = seq![0x1bu8, 0x5b] + parameters + seq![last] + rest;
    if k < parameters.len() {
        assert(s[2 + k] == parameters[k]);
        lemma_csi_ends_at_final(parameters, last, rest, k + 1);
    } else {
        assert(s[2 + k] == last);
    }
}

proof fn lemma_csi_without_final(parameters: Seq<u8>, k: int)
    requires
        forall|i: int|
            0 <= i < parameters.len() ==> !(0x40 <= #[trigger] parameters[i] <= 0x7e),
        0 <= k <= parameters.len(),
    ensures
        escape::csi_end_from(seq![0x1bu8, 0x5b] + parameters, 2 + k) is None,
    decreases parameters.len() - k,
{
    let s = seq![0x1bu8, 0x5b] + parameters;
    if k < parameters.len() {
        assert(s[2 + k] == parameters[k]);
        lemma_csi_without_final(parameters, k + 1);
    }
}

/// A control sequence ends with its first byte from `@` to `~` behind `ESC [`.
pub proof fn law_control_sequences_end(parameters: Seq<u8>, last: u8, rest: Seq<u8>)
    requires
        forall|i: int|
            0 <= i < parameters.len() ==> !(0x40 <= #[trigger] parameters[i] <= 0x7e),
        0x40 <= last <= 0x7e,
    ensures
        escape::csi_end(seq![0x1bu8, 0x5b] + parameters + seq![last] + rest) == Some(
            (parameters.len() + 3) as int,
        ),
        escape::csi_end(seq![0x1bu8, 0x5b] + parameters) is None,
{
    lemma_csi_ends_at_final(parameters, last, rest, 0);
    lemma_csi_without_final(parameters, 0);
}

proof fn lemma_osc_ends(body: Seq<u8>, end: Seq<u8>, rest: Seq<u8>, k: int)
    requires
        forall|i: int|
            0 <= i < body.len() ==> #[trigger] body[i] != 0x07 && !(body[i] == 0x1b && i + 1
                < body.len() && body[i + 1] == 0x5c),
        end == seq![0x07u8] || end == seq![0x1bu8, 0x5c],
        0 <= k <= body.len(),
    ensures
        escape::osc_end_from(seq![0x1bu8, 0x5d] + body + end + rest, 2 + k) == Some(
            (2 + body.len() + end.len()) as int,
        ),
    decreases body.len() - k,
{
    let s = seq![0x1bu8, 0x5d] + body + end + rest;
    if k < body.len() {
        assert(s[2 + k] == body[k]);
        if k + 1 < body.len() {
            assert(s[3 + k] == body[k + 1]);
        } else {
            assert(s[3 + k] == end[0]);
        }
        lemma_osc_ends(body, end, rest, k + 1);
    } else {
        assert(s[2 + k] == end[0]);
        if end.len() == 2 {
            assert(s[3 + k] == end[1]);
        }
    }
}

proof fn lemma_osc_without_end(body: Seq<u8>, k: int)
    requires
        forall|i: int|
            0 <= i < body.len() ==> #[trigger] body[i] != 0x07 && !(body[i] == 0x1b && i + 1
                < body.len() && body[i + 1] == 0x5c),
        0 <= k <= body.len(),
    ensures
        escape::osc_end_from(seq![0x1bu8, 0x5d] + body, 2 + k) is None,
    decreases body.len() - k,
{
    let s = seq![0x1bu8, 0x5d] + body;
    if k < body.len() {
        assert(s[2 + k] == body[k]);
        if k + 1 < body.len() {
            assert(s[3 + k] == body[k + 1]);
        }
        lemma_osc_without_end(body, k + 1);
    }
}

/// An operating system command ends with the first bell, or the first `ESC \`,
/// behind `ESC ]`.
pub proof fn law_system_commands_end(body: Seq<u8>, end: Seq<u8>, rest: Seq<u8>)
    requires
        forall|i: int|
            0 <= i < body.len() ==> #[trigger] body[i] != 0x07 && !(body[i] == 0x1b && i + 1
                < body.len() && body[i + 1] == 0x5c),
        end == seq![0x07u8] || end == seq![0x1bu8, 0x5c],
    ensures
        escape::osc_end(seq![0x1bu8, 0x5d] + body + end + rest) == Some(
            (2 + body.len() + end.len()) as int,
        ),
        escape::osc_end(seq![0x1bu8, 0x5d] + body) is None,
{
    lemma_osc_ends(body, end, rest, 0);
    lemma_osc_without_end(body, 0);
}

/// A whole operating system command is a reply of the terminal: it is noted and
/// left out, and what follows it is relayed by itself.
pub proof fn law_system_command_is_a_reply(body: Seq<u8>, end: Seq<u8>, rest: Seq<u8>)
    requires
        forall|i: int|
            0 <= i < body.len() ==> #[trigger] body[i] != 0x07 && !(body[i] == 0x1b && i + 1
                < body.len() && body[i + 1] == 0x5c),
        end == seq![0x07u8] || end == seq![0x1bu8, 0x5c],
    ensures
        relay::relay_of(seq![0x1bu8, 0x5d] + body + end + rest) == (Relayed {
            reply: true,
            ..relay::relay_of(rest)
        }),
{
    let s = seq![0x1bu8, 0x5d] + body + end + rest;
    law_system_commands_end(body, end, rest);
    assert(s[0] == 0x1b && s[1] == 0x5d);
    assert(s.skip((2 + body.len() + end.len()) as int) =~= rest);
}

/// A whole control sequence is left out if and only if it is the paste shortcut,
/// its release, or a reply: `ESC [ ?` or `ESC [ >` up to `c`, `ESC [ ?` up to `u`,
/// or `ESC [` and a digit up to `R` or `t`. Any other is forwarded, all of it.
/// What follows it is relayed by itself.
pub proof fn law_control_sequence_is_relayed(parameters: Seq<u8>, last: u8, rest: Seq<u8>)
    requires
        forall|i: int|
            0 <= i < parameters.len() ==> !(0x40 <= #[trigger] parameters[i] <= 0x7e),
        0x40 <= last <= 0x7e,
    ensures
        ({
            let sequence = seq![0x1bu8, 0x5b] + parameters + seq![last];
            let later = relay::relay_of(rest);
            let meaning = keys::shortcut_meaning(sequence);
            let reply = parameters.len() > 0 && {
                ||| last == 0x63 && (parameters[0] == 0x3f || parameters[0] == 0x3e)
                ||| last == 0x75 && parameters[0] == 0x3f
                ||| (last == 0x52 || last == 0x74) && 0x30 <= parameters[0] <= 0x39
            };
            relay::relay_of(sequence + rest) == if meaning == ShortcutSequence::Press {
                Relayed { pastes: later.pastes + 1, ..later }
            } else if meaning == ShortcutSequence::Release {
                later
            } else if reply {
                Relayed { reply: true, ..later }
            } else {
                Relayed { output: sequence + later.output, ..later }
            }
        }),
{
    let sequence = seq![0x1bu8, 0x5b] + parameters + seq![last];
    let s = sequence + rest;
    law_control_sequences_end(parameters, last, rest);
    assert(s[0] == 0x1b && s[1] == 0x5b);
    assert(s.take((parameters.len() + 3) as int) =~= sequence);
    assert(s.skip((parameters.len() + 3) as int) =~= rest);
    law_parameters_are_between(parameters, last);
}

/// The parameters of a control sequence stand between `ESC [` and its final byte.
pub proof fn law_parameters_are_between(parameters: Seq<u8>, last: u8)
    ensures
        keys::csi_parameters(seq![0x1bu8, 0x5b] + parameters + seq![last]) == Some(parameters),
        (seq![0x1bu8, 0x5b] + parameters + seq![last]).last() == last,
{
    let sequence = seq![0x1bu8, 0x5b] + parameters + seq![last];
    assert(sequence[0] == 0x1b && sequence[1] == 0x5b);
    assert(sequence.subrange(2, sequence.len() - 1) =~= parameters);
}

/// An escape sequence without its end is kept whole for the next read, up to 256
/// bytes. Of a longer one the escape byte is forwarded, and what follows it is
/// relayed by itself.
pub proof fn law_unfinished_sequences_are_kept(introducer: u8, body: Seq<u8>)
    requires
        introducer == 0x5b || introducer == 0x5d,
        introducer == 0x5b ==> forall|i: int|
            0 <= i < body.len() ==> !(0x40 <= #[trigger] body[i] <= 0x7e),
        introducer == 0x5d ==> forall|i: int|
            0 <= i < body.len() ==> #[trigger] body[i] != 0x07 && !(body[i] == 0x1b && i + 1
                < body.len() && body[i + 1] == 0x5c),
    ensures
        ({
            let s = seq![0x1bu8, introducer] + body;
            let later = relay::relay_of(seq![introducer] + body);
            relay::relay_of(s) == if body.len() <= 254 {
                Relayed { output: Seq::empty(), pastes: 0, reply: false, held: s }
            } else {
                Relayed { output: seq![0x1bu8] + later.output, ..later }
            }
        }),
{
    let s = seq![0x1bu8, introducer] + body;
    assert(s[0] == 0x1b && s[1] == introducer);
    if introducer == 0x5b {
        lemma_csi_without_final(body, 0);
    } else {
        lemma_osc_without_end(body, 0);
    }
    assert(s.take(1) =~= seq![0x1bu8]);
    assert(s.skip(1) =~= seq![introducer] + body);
}

/// A reply is told by its first parameter byte and its final byte.
pub proof fn law_replies_are_told(parameters: Seq<u8>, last: u8)
    ensures
        keys::is_reply(seq![0x1bu8, 0x5b] + parameters + seq![last]) <==> parameters.len() > 0 && {
            ||| last == 0x63 && (parameters[0] == 0x3f || parameters[0] == 0x3e)
            ||| last == 0x75 && parameters[0] == 0x3f
            ||| (last == 0x52 || last == 0x74) && 0x30 <= parameters[0] <= 0x39
        },
{
    law_parameters_are_between(parameters, last);
}

/// `field` in front of `sep`, or alone, is the first field.
proof fn lemma_first_field(field: Seq<u8>, rest: Seq<u8>, sep: u8)
    requires
        !field.contains(sep),
        rest.len() == 0 || rest[0] == sep,
    ensures
        keys::split_on(field + rest, sep) == if rest.len() == 0 {
            seq![field]
        } else {
            seq![field] + keys::split_on(rest.skip(1), sep)
        },
{
    let s = field + rest;
    assert forall|j: int| 0 <= j < field.len() implies s[j] != sep by {
        assert(field.contains(field[j]));
        assert(s[j] == field[j]);
    }
    keys::lemma_first_index(s, sep, field.len() as int);
    if rest.len() == 0 {
        assert(s =~= field);
    } else {
        assert(s.take(field.len() as int) =~= field);
        assert(s.skip((field.len() + 1) as int) =~= rest.skip(1));
    }
}

/// The number of a parameter is what stands before its first colon.
pub proof fn law_parameter_ends_at_a_colon(number: Seq<u8>, more: Seq<u8>)
    requires
        !number.contains(0x3a),
        more.len() == 0 || more[0] == 0x3a,
    ensures
        keys::parameter_value(Some(number + more)) == keys::number_of(number),
{
    lemma_first_field(number, more, 0x3a);
}

/// A sequence without `;` in its parameters is no shortcut, and neither is one that
/// ends in another byte than `u` and `~`.
pub proof fn law_shortcuts_have_parameters(parameters: Seq<u8>, last: u8)
    requires
        !parameters.contains(0x3b) || (last != 0x75 && last != 0x7e),
    ensures
        keys::shortcut_meaning(seq![0x1bu8, 0x5b] + parameters + seq![last])
            == ShortcutSequence::Other,
{
    law_parameters_are_between(parameters, last);
    if !parameters.contains(0x3b) {
        lemma_first_field(parameters, Seq::empty(), 0x3b);
        assert(parameters + Seq::<u8>::empty() =~= parameters);
    }
}

/// Kitty's protocol, `ESC [ code ; modifiers : event u`, where further parts may
/// follow the code and the event behind a colon and further fields behind a
/// semicolon: it is the shortcut where the code is that of `v` or `V` and the
/// modifiers are Alt alone or Ctrl alone, with any lock keys. The event 3 is its
/// release; 1, 2, none and one that is no number are a press.
pub proof fn law_kitty_shortcut(
    code: Seq<u8>,
    codes: Seq<u8>,
    modifiers: Seq<u8>,
    event: Option<Seq<u8>>,
    events: Seq<u8>,
    fields: Seq<u8>,
)
    requires
        !code.contains(0x3a) && !code.contains(0x3b),
        codes.len() == 0 || codes[0] == 0x3a,
        !codes.contains(0x3b),
        !modifiers.contains(0x3a) && !modifiers.contains(0x3b),
        event matches Some(e) ==> !e.contains(0x3a) && !e.contains(0x3b),
        events.len() == 0 || (event is Some && events[0] == 0x3a),
        !events.contains(0x3b),
        fields.len() == 0 || fields[0] == 0x3b,
    ensures
        ({
            let with_event = match event {
                Some(e) => modifiers + seq![0x3au8] + e + events,
                None => modifiers,
            };
            let parameters = code + codes + seq![0x3bu8] + with_event + fields;
            let is_v = keys::number_of(code) == Some(118u16) || keys::number_of(code) == Some(
                86u16,
            );
            let is_modified = keys::number_of(modifiers) matches Some(m) && (m == 3 || m == 5 || m
                == 67 || m == 69 || m == 131 || m == 133 || m == 195 || m == 197);
            let number = match event {
                Some(e) => keys::number_of(e),
                None => None,
            };
            keys::shortcut_meaning(seq![0x1bu8, 0x5b] + parameters + seq![0x75u8])
                == if !is_v || !is_modified {
                ShortcutSequence::Other
            } else if number is None || number == Some(1u16) || number == Some(2u16) {
                ShortcutSequence::Press
            } else if number == Some(3u16) {
                ShortcutSequence::Release
            } else {
                ShortcutSequence::Other
            }
        }),
{
    let with_event = match event {
        Some(e) => modifiers + seq![0x3au8] + e + events,
        None => modifiers,
    };
    let first = code + codes;
    let rest = with_event + fields;
    let parameters = code + codes + seq![0x3bu8] + with_event + fields;
    law_parameters_are_between(parameters, 0x75);
    assert forall|i: int| 0 <= i < first.len() implies first[i] != 0x3b by {
        if i < code.len() {
            assert(code.contains(code[i]));
        } else {
            assert(codes.contains(codes[i - code.len()]));
        }
    }
    assert(!first.contains(0x3b));
    let tail = seq![0x3bu8] + rest;
    assert(parameters =~= first + tail);
    assert(tail.skip(1) =~= rest);
    lemma_first_field(first, tail, 0x3b);
    lemma_event_field(modifiers, event, events);
    lemma_first_field(with_event, fields, 0x3b);
    assert(keys::field(parameters, 0x3b, 0) == Some(first));
    assert(keys::field(parameters, 0x3b, 1) == Some(with_event));
    law_parameter_ends_at_a_colon(code, codes);
    law_parameter_ends_at_a_colon(modifiers, Seq::empty());
    assert(modifiers + Seq::<u8>::empty() =~= modifiers);
    if let Some(e) = event {
        law_parameter_ends_at_a_colon(e, Seq::empty());
        assert(e + Seq::<u8>::empty() =~= e);
    }
    law_shortcut_modifiers(keys::number_of(modifiers));
}

proof fn lemma_event_field(modifiers: Seq<u8>, event: Option<Seq<u8>>, events: Seq<u8>)
    requires
        !modifiers.contains(0x3a) && !modifiers.contains(0x3b),
        event matches Some(e) ==> !e.contains(0x3a) && !e.contains(0x3b),
        events.len() == 0 || (event is Some && events[0] == 0x3a),
        !events.contains(0x3b),
    ensures
        ({
            let with_event = match event {
                Some(e) => modifiers + seq![0x3au8] + e + events,
                None => modifiers,
            };
            &&& !with_event.contains(0x3b)
            &&& keys::field(with_event, 0x3a, 0) == Some(modifiers)
            &&& keys::field(with_event, 0x3a, 1) == event
        }),
{
    match event {
        None => {
            lemma_first_field(modifiers, Seq::empty(), 0x3a);
            assert(modifiers + Seq::<u8>::empty() =~= modifiers);
        },
        Some(e) => {
            let with_event = modifiers + seq![0x3au8] + e + events;
            assert forall|i: int| 0 <= i < with_event.len() implies with_event[i] != 0x3b by {
                if i < modifiers.len() {
                    assert(modifiers.contains(modifiers[i]));
                } else if modifiers.len() < i <= modifiers.len() + e.len() {
                    assert(e.contains(e[i - modifiers.len() - 1]));
                } else if i > modifiers.len() + e.len() {
                    assert(events.contains(events[i - modifiers.len() - e.len() - 1]));
                }
            }
            let tail = seq![0x3au8] + (e + events);
            assert(with_event =~= modifiers + tail);
            assert(tail.skip(1) =~= e + events);
            lemma_first_field(modifiers, tail, 0x3a);
            lemma_first_field(e, events, 0x3a);
        },
    }
}

/// A field of a number and further parts behind a colon holds no semicolon, and
/// its number is read.
proof fn lemma_numbered_field(number: Seq<u8>, more: Seq<u8>)
    requires
        !number.contains(0x3a) && !number.contains(0x3b),
        more.len() == 0 || more[0] == 0x3a,
        !more.contains(0x3b),
    ensures
        !(number + more).contains(0x3b),
        keys::parameter_value(Some(number + more)) == keys::number_of(number),
{
    let field = number + more;
    assert forall|i: int| 0 <= i < field.len() implies field[i] != 0x3b by {
        if i < number.len() {
            assert(number.contains(number[i]));
        } else {
            assert(more.contains(more[i - number.len()]));
        }
    }
    law_parameter_ends_at_a_colon(number, more);
}

/// The first fields between semicolons.
proof fn lemma_three_fields(first: Seq<u8>, second: Seq<u8>, third: Seq<u8>, fields: Seq<u8>)
    requires
        !first.contains(0x3b),
        !second.contains(0x3b),
        !third.contains(0x3b),
        fields.len() == 0 || fields[0] == 0x3b,
    ensures
        ({
            let short = first + seq![0x3bu8] + second;
            let all = first + seq![0x3bu8] + second + seq![0x3bu8] + third + fields;
            &&& keys::field(all, 0x3b, 0) == Some(first)
            &&& keys::field(all, 0x3b, 1) == Some(second)
            &&& keys::field(all, 0x3b, 2) == Some(third)
            &&& keys::field(short, 0x3b, 2) is None
        }),
{
    let all = first + seq![0x3bu8] + second + seq![0x3bu8] + third + fields;
    let middle = seq![0x3bu8] + (third + fields);
    let tail = seq![0x3bu8] + (second + middle);
    assert(all =~= first + tail);
    assert(tail.skip(1) =~= second + middle);
    assert(middle.skip(1) =~= third + fields);
    lemma_first_field(first, tail, 0x3b);
    lemma_first_field(second, middle, 0x3b);
    lemma_first_field(third, fields, 0x3b);
    let short = first + seq![0x3bu8] + second;
    let short_tail = seq![0x3bu8] + second;
    assert(short =~= first + short_tail);
    assert(short_tail.skip(1) =~= second);
    lemma_first_field(first, short_tail, 0x3b);
    lemma_first_field(second, Seq::empty(), 0x3b);
    assert(second + Seq::<u8>::empty() =~= second);
}

/// XTerm's modifyOtherKeys, `ESC [ 27 ; modifiers ; code ~`, where further parts may
/// follow each number behind a colon and further fields behind a semicolon: it is
/// a press of the shortcut where the modifiers are Alt alone or Ctrl alone, with
/// any lock keys, and the code is that of `v` or `V`. With fewer fields it is
/// nothing.
pub proof fn law_modify_other_keys_shortcut(
    kind: Seq<u8>,
    kinds: Seq<u8>,
    modifiers: Seq<u8>,
    modifiers_more: Seq<u8>,
    code: Seq<u8>,
    codes: Seq<u8>,
    fields: Seq<u8>,
)
    requires
        !kind.contains(0x3a) && !kind.contains(0x3b),
        kinds.len() == 0 || kinds[0] == 0x3a,
        !kinds.contains(0x3b),
        !modifiers.contains(0x3a) && !modifiers.contains(0x3b),
        modifiers_more.len() == 0 || modifiers_more[0] == 0x3a,
        !modifiers_more.contains(0x3b),
        !code.contains(0x3a) && !code.contains(0x3b),
        codes.len() == 0 || codes[0] == 0x3a,
        !codes.contains(0x3b),
        fields.len() == 0 || fields[0] == 0x3b,
    ensures
        ({
            let short = kind + kinds + seq![0x3bu8] + modifiers + modifiers_more;
            let parameters = short + seq![0x3bu8] + code + codes + fields;
            let is_v = keys::number_of(code) == Some(118u16) || keys::number_of(code) == Some(
                86u16,
            );
            let is_modified = keys::number_of(modifiers) matches Some(m) && (m == 3 || m == 5 || m
                == 67 || m == 69 || m == 131 || m == 133 || m == 195 || m == 197);
            &&& keys::shortcut_meaning(seq![0x1bu8, 0x5b] + parameters + seq![0x7eu8])
                == if keys::number_of(kind) == Some(27u16) && is_modified && is_v {
                ShortcutSequence::Press
            } else {
                ShortcutSequence::Other
            }
            &&& keys::shortcut_meaning(seq![0x1bu8, 0x5b] + short + seq![0x7eu8])
                == ShortcutSequence::Other
        }),
{
    let short = kind + kinds + seq![0x3bu8] + modifiers + modifiers_more;
    let parameters = short + seq![0x3bu8] + code + codes + fields;
    law_parameters_are_between(parameters, 0x7e);
    law_parameters_are_between(short, 0x7e);
    lemma_numbered_field(kind, kinds);
    lemma_numbered_field(modifiers, modifiers_more);
    lemma_numbered_field(code, codes);
    lemma_three_fields(kind + kinds, modifiers + modifiers_more, code + codes, fields);
    assert(short =~= (kind + kinds) + seq![0x3bu8] + (modifiers + modifiers_more));
    assert(parameters =~= (kind + kinds) + seq![0x3bu8] + (modifiers + modifiers_more)
        + seq![0x3bu8] + (code + codes) + fields);
    law_shortcut_modifiers(keys::number_of(modifiers));
}

/// The modifiers of the shortcut, as terminals send them: one more than the sum of
/// 2 for Alt or 4 for Ctrl, of 64 with Caps Lock and of 128 with Num Lock.
pub proof fn law_shortcut_modifiers(encoded: Option<u16>)
    ensures
        keys::names_shortcut_modifier(encoded) <==> (encoded matches Some(m) && (m == 3 || m == 5
            || m == 67 || m == 69 || m == 131 || m == 133 || m == 195 || m == 197)),
{
    if let Some(m) = encoded {
        assert(keys::modifier_sum(2, 0, 0) == 2 && keys::modifier_sum(4, 0, 0) == 4);
        assert(keys::modifier_sum(2, 64, 0) == 66 && keys::modifier_sum(4, 64, 0) == 68);
        assert(keys::modifier_sum(2, 0, 128) == 130 && keys::modifier_sum(4, 0, 128) == 132);
        assert(keys::modifier_sum(2, 64, 128) == 194 && keys::modifier_sum(4, 64, 128) == 196);
    }
}

/// The key of the shortcut has the code 118 or 86.
pub proof fn law_shortcut_key(codepoint: Option<u16>)
    ensures
        keys::names_v(codepoint) <==> codepoint == Some(118u16) || codepoint == Some(86u16),
{
}

/// Numbers are read digit by digit: a digit alone is its value, and one more digit
/// makes ten times the number and the digit, as long as that is at most 65535. A
/// plus sign in front changes nothing.
pub proof fn law_numbers_are_read_by_digits(s: Seq<u8>, digit: u8)
    requires
        0x30 <= digit <= 0x39,
    ensures
        keys::number_of(seq![digit]) == Some((digit - 0x30) as u16),
        keys::number_of(s) matches Some(n) ==> keys::number_of(s.push(digit)) == if 10 * n + (digit
            - 0x30) <= 65535 {
            Some((10 * n + (digit - 0x30)) as u16)
        } else {
            None
        },
        s.len() > 0 && s[0] != 0x2b ==> keys::number_of(seq![0x2bu8] + s) == keys::number_of(s),
{
    let one = seq![digit];
    assert(one.drop_last() =~= Seq::<u8>::empty());
    assert(keys::digits_value(one.drop_last()) == 0);
    assert(keys::digits_value(one) == (digit - 0x30) as nat);
    assert(keys::all_digits(one));
    if keys::number_of(s) is Some {
        let digits = keys::unsigned_digits(s);
        let longer = keys::unsigned_digits(s.push(digit));
        assert(longer =~= digits.push(digit));
        assert(longer.drop_last() =~= digits);
        assert forall|i: int| 0 <= i < longer.len() implies keys::is_digit(#[trigger] longer[i]) by {
            if i < digits.len() {
                assert(longer[i] == digits[i]);
                assert(keys::is_digit(digits[i]));
            }
        }
        assert(keys::all_digits(longer));
        assert(keys::digits_value(longer) == keys::digits_value(digits) * 10 + (digit
            - 0x30) as nat);
    }
    if s.len() > 0 && s[0] != 0x2b {
        let signed = seq![0x2bu8] + s;
        assert(signed[0] == 0x2b);
        assert(signed.skip(1) =~= s);
    }
}

/// What holds another byte than a digit behind an optional plus sign, or no digit
/// at all, is no number; and a number stays too large whatever digits follow.
pub proof fn law_other_text_is_no_number(s: Seq<u8>, i: int, digit: u8)
    ensures
        keys::number_of(Seq::empty()) is None,
        keys::number_of(seq![0x2bu8]) is None,
        0 <= i < s.len() && !(0x30 <= s[i] <= 0x39) && !(i == 0 && s[0] == 0x2b)
            ==> keys::number_of(s) is None,
        s.len() > 0 && !(s.len() == 1 && s[0] == 0x2b) && keys::number_of(s) is None
            ==> keys::number_of(s.push(digit)) is None,
{
    let lone = seq![0x2bu8];
    assert(lone.skip(1) =~= Seq::<u8>::empty());
    let digits = keys::unsigned_digits(s);
    if 0 <= i < s.len() && !(0x30 <= s[i] <= 0x39) && !(i == 0 && s[0] == 0x2b) {
        if s[0] == 0x2b {
            assert(digits[i - 1] == s[i]);
            assert(!keys::is_digit(digits[i - 1]));
        } else {
            assert(!keys::is_digit(digits[i]));
        }
    }
    if s.len() > 0 && !(s.len() == 1 && s[0] == 0x2b) && keys::number_of(s) is None {
        let longer = keys::unsigned_digits(s.push(digit));
        assert(longer =~= digits.push(digit));
        assert(longer.drop_last() =~= digits);
        if keys::all_digits(longer) {
            assert forall|k: int| 0 <= k < digits.len() implies keys::is_digit(
                #[trigger] digits[k],
            ) by {
                assert(longer[k] == digits[k]);
                assert(keys::is_digit(longer[k]));
            }
            assert(keys::is_digit(longer.last()));
        }
    }
}

} // verus!
