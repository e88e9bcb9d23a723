//! Output, pastes and the course of a session.

use sbc::session::modes::TerminalModes;
use sbc::session::output::{OutputAction, OutputEvent, OutputLoop};
use sbc::session::paste::{
    terminal_notice, write_paste, write_paste_bytes, ClipboardAction, ClipboardEvent,
    ClipboardRequest, ClipboardWorker,
};
use sbc::session::{resize_loop, run, SessionAction, SessionEvent, SessionStage};

/// Runs an output loop over these reads, counting flushes and keeping writes.
/// Each read after the first checks that the one before was flushed.
fn show(reads: &[&[u8]], ready: bool) -> (Vec<Vec<u8>>, usize, bool) {
    let mut output = OutputLoop::default();
    let mut writes = Vec::new();
    let mut flushes: usize = 0;
    let mut taken: usize = 0;
    let mut event = OutputEvent::InputRelay { ready };
    loop {
        match output.relay_output_after_input_ready(event) {
            OutputAction::Read => {
                assert_eq!(flushes, taken);
                event = OutputEvent::Read(match reads.get(taken) {
                    Some(bytes) => bytes.to_vec(),
                    None => Vec::new(),
                });
                taken += 1;
            }
            OutputAction::Write(bytes) => {
                writes.push(bytes);
                event = OutputEvent::Done;
            }
            OutputAction::Flush => {
                flushes += 1;
                event = OutputEvent::Done;
            }
            OutputAction::Finish => return (writes, taken, true),
            OutputAction::Fail(_) => return (writes, taken, false),
        }
    }
}

#[test]
fn terminal_output_waits_for_the_input_relay() {
    let mut output = OutputLoop::default();
    assert!(matches!(
        output.relay_output_after_input_ready(OutputEvent::InputRelay { ready: true }),
        OutputAction::Read
    ));
    assert!(matches!(
        output.relay_output_after_input_ready(OutputEvent::Read(Vec::new())),
        OutputAction::Finish
    ));
}

#[test]
fn terminal_output_flushes_each_read() {
    let (writes, _, finished) = show(&[b"first redraw"], true);

    assert!(finished);
    assert_eq!(writes, [b"first redraw".as_slice()]);
}

#[test]
fn terminal_modes_track_bracketed_paste_across_reads() {
    let mut bracketed_paste = false;
    let mut modes = TerminalModes::default();

    modes.observe(b"before\x1b[?20", &mut bracketed_paste);
    modes.observe(b"04hafter", &mut bracketed_paste);
    assert!(bracketed_paste);

    modes.observe(b"\x1b[?200", &mut bracketed_paste);
    modes.observe(b"4l", &mut bracketed_paste);
    assert!(!bracketed_paste);
}

#[test]
fn the_last_switch_counts() {
    let mut bracketed_paste = false;
    let mut modes = TerminalModes::default();
    modes.observe(b"\x1b[?2004l\x1b[?2004h", &mut bracketed_paste);
    assert!(bracketed_paste);
    modes.observe(b"plain", &mut bracketed_paste);
    assert!(bracketed_paste);
    modes.observe(b"\x1b[?2004h\x1b[?2004l", &mut bracketed_paste);
    assert!(!bracketed_paste);
}

#[test]
fn the_mode_does_not_depend_on_the_cut() {
    let all = b"a\x1b[?2004hb\x1b[?2004lc\x1b[?2004h";
    for cut in 0..=all.len() {
        let mut bracketed_paste = false;
        let mut modes = TerminalModes::default();
        modes.observe(&all[..cut], &mut bracketed_paste);
        modes.observe(&all[cut..], &mut bracketed_paste);
        assert!(bracketed_paste, "cut at {cut}");
    }
}

#[test]
fn nothing_is_read_when_the_input_relay_has_stopped() {
    let mut output = OutputLoop::default();
    let action = output.relay_output_after_input_ready(OutputEvent::InputRelay { ready: false });
    let OutputAction::Fail(error) = action else {
        panic!("expected a failure");
    };
    assert_eq!(error.message(), "input relay stopped");
    assert_eq!(show(&[b"unseen"], false), (Vec::new(), 0, false));
}

#[test]
fn all_reads_are_shown_as_they_are() {
    let (writes, taken, finished) = show(&[b"one", b"\x1b[?2004h", b"three"], true);
    assert!(finished);
    assert_eq!(taken, 4);
    assert_eq!(writes, [b"one".as_slice(), b"\x1b[?2004h", b"three"]);
}

#[test]
fn a_failed_write_ends_the_output() {
    let mut output = OutputLoop::default();
    output.relay_output_after_input_ready(OutputEvent::InputRelay { ready: true });
    output.relay_output_after_input_ready(OutputEvent::Read(b"\x1b[?2004h".to_vec()));
    assert!(output.bracketed_paste());
    let action = output.relay_output_after_input_ready(OutputEvent::Failed("gone".to_owned()));
    let OutputAction::Fail(error) = action else {
        panic!("expected a failure");
    };
    assert_eq!(error.message(), "gone");
}

#[test]
fn pasted_text_is_written_unchanged() {
    let mut written = Vec::new();

    write_paste_bytes(&mut written, b"clipboard text", false);

    assert_eq!(written, b"clipboard text");
}

#[test]
fn pasted_text_uses_bracketed_protocol_when_enabled() {
    let mut written = Vec::new();

    write_paste_bytes(&mut written, b"clipboard text", true);

    assert_eq!(written, b"\x1b[200~clipboard text\x1b[201~");
}

#[test]
fn pasted_text_is_written_in_utf8() {
    assert_eq!(write_paste("gr\u{fc}n", false), b"gr\xc3\xbcn");
    assert_eq!(write_paste("\u{1f600}", true), b"\x1b[200~\xf0\x9f\x98\x80\x1b[201~");
}

#[test]
fn notices_stand_on_lines_of_their_own() {
    assert_eq!(terminal_notice("paste failed: no"), "\r\nsbc: paste failed: no\r\n");
}

fn paste_request(done: bool) -> ClipboardEvent {
    ClipboardEvent::Request {
        request: ClipboardRequest::Paste,
        done,
    }
}

fn warmup_request() -> ClipboardEvent {
    ClipboardEvent::Request {
        request: ClipboardRequest::Warmup,
        done: false,
    }
}

#[test]
fn text_is_pasted() {
    let mut worker = ClipboardWorker::default();
    assert!(matches!(
        worker.clipboard_loop(paste_request(false)),
        ClipboardAction::ReadClipboard
    ));
    let action = worker.clipboard_loop(ClipboardEvent::ReadText("hello".to_owned()));
    assert!(matches!(action, ClipboardAction::Paste(text) if text == "hello"));
}

#[test]
fn images_are_uploaded_by_one_helper() {
    let mut worker = ClipboardWorker::default();
    worker.clipboard_loop(paste_request(false));
    assert!(matches!(
        worker.clipboard_loop(ClipboardEvent::ReadImage),
        ClipboardAction::StartTransfer
    ));
    assert!(matches!(
        worker.clipboard_loop(ClipboardEvent::TransferStarted),
        ClipboardAction::UploadImage
    ));
    let action = worker.clipboard_loop(ClipboardEvent::Uploaded {
        path: "/tmp/sbc/1-2/sbc-1-3-0.png".to_owned(),
    });
    assert!(matches!(
        action,
        ClipboardAction::Paste(text) if text == "[image: /tmp/sbc/1-2/sbc-1-3-0.png]"
    ));
    worker.clipboard_loop(paste_request(false));
    assert!(matches!(
        worker.clipboard_loop(ClipboardEvent::ReadImage),
        ClipboardAction::UploadImage
    ));
    let action = worker.clipboard_loop(ClipboardEvent::UploadFailed("full".to_owned()));
    assert!(matches!(
        action,
        ClipboardAction::Notice(text) if text == "image paste failed: full"
    ));
    assert!(matches!(
        worker.clipboard_loop(warmup_request()),
        ClipboardAction::Receive
    ));
}

#[test]
fn a_helper_that_failed_is_not_started_again() {
    let mut worker = ClipboardWorker::default();
    assert!(matches!(
        worker.clipboard_loop(warmup_request()),
        ClipboardAction::StartTransfer
    ));
    assert!(matches!(
        worker.clipboard_loop(ClipboardEvent::TransferFailed("no sbx".to_owned())),
        ClipboardAction::Receive
    ));
    assert!(matches!(
        worker.clipboard_loop(warmup_request()),
        ClipboardAction::Receive
    ));
    worker.clipboard_loop(paste_request(false));
    let action = worker.clipboard_loop(ClipboardEvent::ReadImage);
    assert!(matches!(
        action,
        ClipboardAction::Notice(text) if text == "image paste failed: no sbx"
    ));
}

#[test]
fn a_helper_that_fails_for_an_image_is_told_of() {
    let mut worker = ClipboardWorker::default();
    worker.clipboard_loop(paste_request(false));
    worker.clipboard_loop(ClipboardEvent::ReadImage);
    let action = worker.clipboard_loop(ClipboardEvent::TransferFailed("no sbx".to_owned()));
    assert!(matches!(
        action,
        ClipboardAction::Notice(text) if text == "image paste failed: no sbx"
    ));
}

#[test]
fn an_unreadable_clipboard_is_told_of() {
    let mut worker = ClipboardWorker::default();
    worker.clipboard_loop(paste_request(false));
    let action = worker.clipboard_loop(ClipboardEvent::ReadFailed("locked".to_owned()));
    assert!(matches!(
        action,
        ClipboardAction::Notice(text) if text == "paste failed: locked"
    ));
}

#[test]
fn nothing_is_pasted_after_the_end() {
    let mut worker = ClipboardWorker::default();
    assert!(matches!(
        worker.clipboard_loop(paste_request(true)),
        ClipboardAction::Receive
    ));
    let shutdown = ClipboardEvent::Request {
        request: ClipboardRequest::Shutdown,
        done: true,
    };
    assert!(matches!(worker.clipboard_loop(shutdown), ClipboardAction::Stop));
    let mut worker = ClipboardWorker::default();
    assert!(matches!(
        worker.clipboard_loop(ClipboardEvent::Disconnected),
        ClipboardAction::Stop
    ));
}

#[test]
fn a_warmed_up_helper_takes_the_first_image() {
    let mut worker = ClipboardWorker::default();
    worker.clipboard_loop(warmup_request());
    assert!(matches!(
        worker.clipboard_loop(ClipboardEvent::TransferStarted),
        ClipboardAction::Receive
    ));
    worker.clipboard_loop(paste_request(false));
    assert!(matches!(
        worker.clipboard_loop(ClipboardEvent::ReadImage),
        ClipboardAction::UploadImage
    ));
}

#[test]
fn a_session_needs_two_terminals() {
    for (input, output) in [(false, true), (true, false), (false, false)] {
        let mut stage = SessionStage::Starting;
        let action = run(&mut stage, SessionEvent::Terminals { input, output });
        let SessionAction::Fail(error) = action else {
            panic!("expected a failure");
        };
        assert_eq!(error.message(), "sbc requires an interactive terminal");
        assert_eq!(stage, SessionStage::Ended);
    }
}

/// A session that has come as far as running its command.
fn running() -> SessionStage {
    let mut stage = SessionStage::Starting;
    let terminals = SessionEvent::Terminals {
        input: true,
        output: true,
    };
    assert!(matches!(run(&mut stage, terminals), SessionAction::Measure));
    assert!(matches!(
        run(&mut stage, SessionEvent::Measured(Some((120, 40)))),
        SessionAction::OpenTerminal { columns: 120, rows: 40 }
    ));
    assert!(matches!(run(&mut stage, SessionEvent::Done), SessionAction::Spawn));
    assert!(matches!(run(&mut stage, SessionEvent::Done), SessionAction::Connect));
    assert!(matches!(run(&mut stage, SessionEvent::Done), SessionAction::EnterRawMode));
    assert!(matches!(run(&mut stage, SessionEvent::Done), SessionAction::Relay));
    stage
}

#[test]
fn a_session_ends_as_its_command_does() {
    let mut stage = running();
    let exited = SessionEvent::Exited {
        success: true,
        status: "Success".to_owned(),
    };
    assert!(matches!(run(&mut stage, exited), SessionAction::ShutDown(Ok(()))));

    let mut stage = running();
    let exited = SessionEvent::Exited {
        success: false,
        status: "Exited with code 7".to_owned(),
    };
    let SessionAction::ShutDown(Err(error)) = run(&mut stage, exited) else {
        panic!("expected a failure");
    };
    assert_eq!(error.message(), "session Exited with code 7");
}

#[test]
fn a_session_that_cannot_start_fails() {
    let mut stage = SessionStage::Opening;
    let SessionAction::Fail(error) = run(&mut stage, SessionEvent::Failed("no pty".to_owned()))
    else {
        panic!("expected a failure");
    };
    assert_eq!(error.message(), "no pty");
}

#[test]
fn an_unknown_size_is_the_usual_one() {
    let mut stage = SessionStage::Measuring;
    assert!(matches!(
        run(&mut stage, SessionEvent::Measured(None)),
        SessionAction::OpenTerminal { columns: 80, rows: 24 }
    ));
}

#[test]
fn the_size_follows_the_terminal() {
    assert_eq!(resize_loop((80, 24), Some((80, 24))), None);
    assert_eq!(resize_loop((80, 24), Some((81, 24))), Some((81, 24)));
    assert_eq!(resize_loop((80, 24), Some((80, 25))), Some((80, 25)));
    assert_eq!(resize_loop((80, 24), None), None);
}
