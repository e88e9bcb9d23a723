//! The input relay on concrete input.

use sbc::session::ascii::CTRL_V;
use sbc::session::escape::{csi_sequence_end, osc_sequence_end};
use sbc::session::input::{InputAction, InputEvent, InputLoop};
use sbc::session::keys::{
    clipboard_shortcut_sequence, is_clipboard_modifier, is_terminal_response, is_v_codepoint,
    kitty_clipboard_shortcut, modify_other_keys_clipboard_shortcut, parameter_number,
    ShortcutSequence,
};
use sbc::session::paste::ClipboardRequest;
use sbc::session::relay::{InputRelay, MAX_ESCAPE_SEQUENCE};

/// What one read makes a fresh relay write, and the pastes it counts.
fn relayed(input: &[u8]) -> (Vec<u8>, usize) {
    let mut forwarded = Vec::new();
    let pastes: usize = InputRelay::default().forward(&mut forwarded, input, true);
    (forwarded, pastes)
}

#[test]
fn ctrl_v_byte_matches_terminal_shortcut() {
    assert_eq!(CTRL_V, b'V' & 0x1f);
}

#[test]
fn enhanced_ctrl_v_is_intercepted() {
    let mut forwarded = Vec::new();
    let mut relay = InputRelay::default();

    let paste_count: usize = relay.forward(&mut forwarded, b"\x1b[118;5u", true);

    assert!(forwarded.is_empty());
    assert_eq!(paste_count, 1);
}

#[test]
fn ctrl_v_terminal_encodings_are_intercepted() {
    for sequence in [
        b"\x16".as_slice(),
        b"\x1b[118;5u",
        b"\x1b[118:86:118;5:1u",
        b"\x1b[118;69u",
        b"\x1b[27;5;118~",
    ] {
        let mut forwarded = Vec::new();

        let paste_count: usize =
            InputRelay::default().forward(&mut forwarded, sequence, true);

        assert!(forwarded.is_empty(), "forwarded {sequence:?}");
        assert_eq!(paste_count, 1, "did not intercept {sequence:?}");
    }
}

#[test]
fn alt_v_terminal_encodings_are_intercepted() {
    for sequence in [
        b"\x1bv".as_slice(),
        b"\x1bV",
        b"\x1b[118;3u",
        b"\x1b[86;3u",
        b"\x1b[118:86:118;3:1u",
        b"\x1b[118;67u",
        b"\x1b[27;3;118~",
        b"\x1b[27;3;86~",
    ] {
        let mut forwarded = Vec::new();

        let paste_count: usize =
            InputRelay::default().forward(&mut forwarded, sequence, true);

        assert!(forwarded.is_empty(), "forwarded {sequence:?}");
        assert_eq!(paste_count, 1, "did not intercept {sequence:?}");
    }
}

#[test]
fn enhanced_alt_v_release_is_discarded() {
    let mut forwarded = Vec::new();

    let paste_count: usize =
        InputRelay::default().forward(&mut forwarded, b"\x1b[118;3:3u", true);

    assert!(forwarded.is_empty());
    assert_eq!(paste_count, 0);
}

#[test]
fn other_alt_keys_pass_through() {
    let input = b"\x1bx\x1b[120;3u";
    let mut forwarded = Vec::new();

    let paste_count: usize = InputRelay::default().forward(&mut forwarded, input, true);

    assert_eq!(forwarded, input);
    assert_eq!(paste_count, 0);
}

#[test]
fn enhanced_ctrl_v_release_is_discarded() {
    let mut forwarded = Vec::new();

    let paste_count: usize =
        InputRelay::default().forward(&mut forwarded, b"\x1b[118;5:3u", true);

    assert!(forwarded.is_empty());
    assert_eq!(paste_count, 0);
}

#[test]
fn enhanced_ctrl_v_can_span_reads() {
    let mut forwarded = Vec::new();
    let mut paste_count: usize = 0;
    let mut relay = InputRelay::default();

    paste_count += relay.forward(&mut forwarded, b"before\x1b[118;", true);
    paste_count += relay.forward(&mut forwarded, b"5uafter", true);

    assert_eq!(forwarded, b"beforeafter");
    assert_eq!(paste_count, 1);
}

#[test]
fn terminal_responses_do_not_become_agent_input() {
    let keyboard = b"\x1b[?0u";
    let attributes = b"\x1b[?61;4;6;7;14;21;22;23;24;28;32;42;52c";
    let background = b"\x1b]11;rgb:0000/0000/0000\x1b\\";
    let input = [keyboard.as_slice(), attributes, background].concat();
    let mut forwarded = Vec::new();
    let mut relay = InputRelay::default();

    let paste_count: usize = relay.forward(&mut forwarded, &input, true);

    assert!(forwarded.is_empty());
    assert_eq!(paste_count, 0);
    assert!(relay.take_terminal_response());
    assert!(!relay.take_terminal_response());
}

#[test]
fn captured_windows_terminal_replies_do_not_become_agent_input() {
    let mut relay = InputRelay::default();
    let mut forwarded = Vec::new();
    let reads = [
        b"\x1b[?61;4;6;7;14;21;22;23;24;28;32".as_slice(),
        b";42;52c\x1b]11;rgb:0000/00",
        b"00/0000\x1b\\",
    ];
    let mut paste_count: usize = 0;

    for read in reads {
        paste_count += relay.forward(&mut forwarded, read, true);
    }

    assert!(forwarded.is_empty());
    assert_eq!(paste_count, 0);
    assert!(relay.take_terminal_response());
}

#[test]
fn clipboard_disabled_passes_enhanced_ctrl_v_through() {
    let mut forwarded = Vec::new();

    let paste_count: usize =
        InputRelay::default().forward(&mut forwarded, b"\x1b[118;5u", false);

    assert_eq!(forwarded, b"\x1b[118;5u");
    assert_eq!(paste_count, 0);
}

#[test]
fn clipboard_disabled_passes_alt_v_through() {
    let input = b"\x1bv\x1b[118;3u";
    let mut forwarded = Vec::new();

    let paste_count: usize = InputRelay::default().forward(&mut forwarded, input, false);

    assert_eq!(forwarded, input);
    assert_eq!(paste_count, 0);
}

#[test]
fn plain_input_passes_through_at_once() {
    assert_eq!(relayed(b"ls -l\r"), (b"ls -l\r".to_vec(), 0));
    assert_eq!(relayed(b""), (Vec::new(), 0));
}

#[test]
fn pastes_are_taken_out_of_the_middle() {
    assert_eq!(relayed(b"a\x16b\x1bvc\x16"), (b"abc".to_vec(), 3));
}

#[test]
fn a_lone_escape_is_forwarded() {
    assert_eq!(relayed(b"\x1b"), (b"\x1b".to_vec(), 0));
}

#[test]
fn split_reads_relay_as_one_where_the_cut_is_clean() {
    let input = b"x\x1b[118;5uy\x1b[31mz\x1b]0;t\x07!";
    let (whole, whole_pastes) = relayed(input);
    for cut in [1, 3, 6, 9, 10, 13, 18, 21] {
        let mut forwarded = Vec::new();
        let mut relay = InputRelay::default();
        let mut pastes: usize = relay.forward(&mut forwarded, &input[..cut], true);
        pastes += relay.forward(&mut forwarded, &input[cut..], true);
        assert_eq!(forwarded, whole, "cut at {cut}");
        assert_eq!(pastes, whole_pastes, "cut at {cut}");
    }
    assert_eq!(whole, b"xy\x1b[31mz!");
    assert_eq!(whole_pastes, 1);
}

#[test]
fn long_reads_relay_as_one_where_the_cut_is_clean() {
    let mut input = vec![b'x'; 700];
    input.extend_from_slice(b"\x1b[118;5u\x1b[31m");
    input.extend_from_slice(&[b'y'; 300]);
    let (whole, whole_pastes) = relayed(&input);
    assert_eq!(whole.len(), 1005);
    assert_eq!(whole_pastes, 1);
    for cut in 700..=input.len() {
        if input[cut - 1] == 0x1b {
            continue;
        }
        let mut forwarded = Vec::new();
        let mut relay = InputRelay::default();
        let mut pastes: usize = relay.forward(&mut forwarded, &input[..cut], true);
        pastes += relay.forward(&mut forwarded, &input[cut..], true);
        assert_eq!(forwarded, whole, "cut at {cut}");
        assert_eq!(pastes, whole_pastes, "cut at {cut}");
    }
}

#[test]
fn a_cut_behind_a_lone_escape_is_not_clean() {
    let mut forwarded = Vec::new();
    let mut relay = InputRelay::default();
    let mut pastes: usize = relay.forward(&mut forwarded, b"\x1b", true);
    pastes += relay.forward(&mut forwarded, b"v", true);
    assert_eq!(forwarded, b"\x1bv");
    assert_eq!(pastes, 0);
    assert_eq!(relayed(b"\x1bv"), (Vec::new(), 1));
}

#[test]
fn an_unfinished_sequence_is_waited_for_up_to_its_limit() {
    let mut sequence = b"\x1b[".to_vec();
    sequence.resize(MAX_ESCAPE_SEQUENCE, b'1');
    assert_eq!(relayed(&sequence), (Vec::new(), 0));
    sequence.push(b'1');
    assert_eq!(relayed(&sequence), (sequence.clone(), 0));

    let mut command = b"\x1b]".to_vec();
    command.resize(MAX_ESCAPE_SEQUENCE, b'x');
    assert_eq!(relayed(&command), (Vec::new(), 0));
    command.push(b'x');
    assert_eq!(relayed(&command), (command.clone(), 0));
}

#[test]
fn no_byte_is_lost_between_reads() {
    let input = b"ab\x1b[31mc\x1b[1;5Ad\x1b";
    for first in 0..=input.len() {
        for second in first..=input.len() {
            let mut forwarded = Vec::new();
            let mut relay = InputRelay::default();
            let mut pastes: usize = relay.forward(&mut forwarded, &input[..first], true);
            pastes += relay.forward(&mut forwarded, &input[first..second], true);
            pastes += relay.forward(&mut forwarded, &input[second..], true);
            assert_eq!(forwarded, input, "cut at {first} and {second}");
            assert_eq!(pastes, 0);
        }
    }
}

#[test]
fn disabling_releases_what_was_held() {
    let mut forwarded = Vec::new();
    let mut relay = InputRelay::default();
    relay.forward(&mut forwarded, b"\x1b[118;", true);
    assert!(forwarded.is_empty());
    relay.forward(&mut forwarded, b"5u", false);
    assert_eq!(forwarded, b"\x1b[118;5u");
}

#[test]
fn sequences_end_where_they_should() {
    assert_eq!(csi_sequence_end(b"\x1b[118;5u!"), Some(8));
    assert_eq!(csi_sequence_end(b"\x1b[118;5"), None);
    assert_eq!(osc_sequence_end(b"\x1b]0;t\x07!"), Some(6));
    assert_eq!(osc_sequence_end(b"\x1b]0;t\x1b\\!"), Some(7));
    assert_eq!(osc_sequence_end(b"\x1b]0;t\x1b"), None);
}

#[test]
fn replies_are_told_from_keys() {
    assert!(is_terminal_response(b"\x1b[?1;2c"));
    assert!(is_terminal_response(b"\x1b[>1;2c"));
    assert!(is_terminal_response(b"\x1b[?1u"));
    assert!(is_terminal_response(b"\x1b[24;80R"));
    assert!(is_terminal_response(b"\x1b[8;24;80t"));
    assert!(!is_terminal_response(b"\x1b[1;2c"));
    assert!(!is_terminal_response(b"\x1b[R"));
    assert!(!is_terminal_response(b"\x1b[118;5u"));
    assert!(!is_terminal_response(b"\x1b[A"));
    assert!(!is_terminal_response(b""));
}

#[test]
fn numbers_are_read_as_unsigned_16_bit() {
    assert_eq!(parameter_number(Some(b"118")), Some(118));
    assert_eq!(parameter_number(Some(b"118:86")), Some(118));
    assert_eq!(parameter_number(Some(b"+5")), Some(5));
    assert_eq!(parameter_number(Some(b"0007")), Some(7));
    assert_eq!(parameter_number(Some(b"65535")), Some(65535));
    assert_eq!(parameter_number(Some(b"65536")), None);
    assert_eq!(parameter_number(Some(b"")), None);
    assert_eq!(parameter_number(Some(b"+")), None);
    assert_eq!(parameter_number(Some(b"-1")), None);
    assert_eq!(parameter_number(Some(b"1x")), None);
    assert_eq!(parameter_number(Some(b"\xff")), None);
    assert_eq!(parameter_number(None), None);
}

#[test]
fn numbers_are_read_as_std_reads_them() {
    let alphabet = [b'+', b'-', b'0', b'1', b'6', b'9', b' ', 0xff];
    for a in alphabet {
        for b in alphabet {
            for c in alphabet {
                let text = [a, b, c];
                let expected: Option<u16> =
                    std::str::from_utf8(&text).ok().and_then(|t| t.parse().ok());
                assert_eq!(parameter_number(Some(&text)), expected, "{text:?}");
            }
        }
    }
}

#[test]
fn modifiers_of_the_shortcut() {
    assert!(is_clipboard_modifier(Some(5)));
    assert!(is_clipboard_modifier(Some(3)));
    assert!(is_clipboard_modifier(Some(5 + 64 + 128)));
    assert!(!is_clipboard_modifier(Some(7)));
    assert!(!is_clipboard_modifier(Some(6)));
    assert!(!is_clipboard_modifier(Some(1)));
    assert!(!is_clipboard_modifier(Some(0)));
    assert!(!is_clipboard_modifier(None));
    assert!(is_v_codepoint(Some(118)));
    assert!(is_v_codepoint(Some(86)));
    assert!(!is_v_codepoint(Some(120)));
    assert!(!is_v_codepoint(None));
}

#[test]
fn modifiers_are_those_of_the_bits() {
    for value in 0..=u16::MAX {
        let expected = value > 0 && {
            let bits: u16 = value - 1;
            let shortcut: u16 = bits & (2 | 4);
            (shortcut == 2 || shortcut == 4) && bits & !(2 | 4 | 64 | 128) == 0
        };
        assert_eq!(is_clipboard_modifier(Some(value)), expected, "{value}");
    }
}

#[test]
fn events_of_the_shortcut() {
    assert_eq!(kitty_clipboard_shortcut(b"118;5"), ShortcutSequence::Press);
    assert_eq!(kitty_clipboard_shortcut(b"118;5:2"), ShortcutSequence::Press);
    assert_eq!(kitty_clipboard_shortcut(b"118;5:3"), ShortcutSequence::Release);
    assert_eq!(kitty_clipboard_shortcut(b"118;5:4"), ShortcutSequence::Other);
    assert_eq!(kitty_clipboard_shortcut(b"118;5:x"), ShortcutSequence::Press);
    assert_eq!(kitty_clipboard_shortcut(b"118"), ShortcutSequence::Other);
    assert_eq!(
        modify_other_keys_clipboard_shortcut(b"27;5;118"),
        ShortcutSequence::Press
    );
    assert_eq!(
        modify_other_keys_clipboard_shortcut(b"26;5;118"),
        ShortcutSequence::Other
    );
    assert_eq!(
        modify_other_keys_clipboard_shortcut(b"27;5"),
        ShortcutSequence::Other
    );
    assert_eq!(
        clipboard_shortcut_sequence(b"\x1b[118;5u"),
        ShortcutSequence::Press
    );
    assert_eq!(
        clipboard_shortcut_sequence(b"\x1b[118;5~"),
        ShortcutSequence::Other
    );
    assert_eq!(clipboard_shortcut_sequence(b""), ShortcutSequence::Other);
}

#[test]
fn each_read_is_written_then_requested() {
    let mut input = InputLoop::new(true);
    assert!(matches!(input.input_loop(InputEvent::Sent(true)), InputAction::Read));
    let read = b"a\x16\x1b[?0u\x16b".to_vec();
    let InputAction::Write(output) = input.input_loop(InputEvent::Read(read)) else {
        panic!("expected a write");
    };
    assert_eq!(output, b"ab");
    assert!(matches!(
        input.input_loop(InputEvent::Written(true)),
        InputAction::Request(ClipboardRequest::Warmup)
    ));
    assert!(matches!(
        input.input_loop(InputEvent::Sent(true)),
        InputAction::Request(ClipboardRequest::Paste)
    ));
    assert!(matches!(
        input.input_loop(InputEvent::Sent(true)),
        InputAction::Request(ClipboardRequest::Paste)
    ));
    assert!(matches!(input.input_loop(InputEvent::Sent(true)), InputAction::Read));
    assert!(matches!(
        input.input_loop(InputEvent::Read(Vec::new())),
        InputAction::Stop
    ));
}

#[test]
fn input_stops_when_nobody_listens() {
    let mut input = InputLoop::new(true);
    assert!(matches!(input.input_loop(InputEvent::Sent(false)), InputAction::Stop));

    let mut input = InputLoop::new(true);
    input.input_loop(InputEvent::Sent(true));
    assert!(matches!(input.input_loop(InputEvent::ReadFailed), InputAction::Stop));

    let mut input = InputLoop::new(true);
    input.input_loop(InputEvent::Sent(true));
    input.input_loop(InputEvent::Read(b"a".to_vec()));
    assert!(matches!(
        input.input_loop(InputEvent::Written(false)),
        InputAction::Stop
    ));

    let mut input = InputLoop::new(true);
    input.input_loop(InputEvent::Sent(true));
    input.input_loop(InputEvent::Read(b"\x16".to_vec()));
    input.input_loop(InputEvent::Written(true));
    assert!(matches!(input.input_loop(InputEvent::Sent(false)), InputAction::Stop));
}

#[test]
fn input_without_the_clipboard_requests_nothing() {
    let mut input = InputLoop::new(false);
    input.input_loop(InputEvent::Sent(true));
    let read = b"\x16\x1b[?0u".to_vec();
    let InputAction::Write(output) = input.input_loop(InputEvent::Read(read)) else {
        panic!("expected a write");
    };
    assert_eq!(output, b"\x16\x1b[?0u");
    assert!(matches!(
        input.input_loop(InputEvent::Written(true)),
        InputAction::Read
    ));
}
