//! A session: the terminal here, and the program in the sandbox.

use vstd::prelude::*;

use crate::error::{Error, Failure};

pub mod ascii;
pub mod escape;
pub mod input;
pub mod keys;
pub mod modes;
pub mod output;
pub mod paste;
pub mod protocol_laws;
pub mod relay;
pub mod relay_laws;

verus! {

/// The columns and rows of a terminal that does not tell its size.
pub const DEFAULT_SIZE: (u16, u16) = (80, 24);

/// How far a session has come.
#[derive(Clone, Copy, Debug, PartialEq, Eq, Structural)]
pub enum SessionStage {
    /// Nothing is known of the terminal.
    Starting,
    /// The terminal is being measured.
    Measuring,
    /// A terminal for the sandbox is being opened.
    Opening,
    /// The command is being started in it.
    Spawning,
    /// Its input and output are being taken.
    Connecting,
    /// The terminal here is being switched to raw mode.
    EnteringRawMode,
    /// The command runs.
    Running,
    /// The session is over.
    Ended,
}

/// What happened.
#[derive(Debug)]
pub enum SessionEvent {
    /// Whether input and output of this process are terminals.
    Terminals { input: bool, output: bool },
    /// The columns and rows of the terminal, where it tells them.
    Measured(Option<(u16, u16)>),
    /// What was to be done succeeded.
    Done,
    /// What was to be done failed.
    Failed(String),
    /// The command ended, and this is its status in words.
    Exited { success: bool, status: String },
}

pub enum SessionEventView {
    Terminals { input: bool, output: bool },
    Measured(Option<(u16, u16)>),
    Done,
    Failed(Seq<char>),
    Exited { success: bool, status: Seq<char> },
}

impl View for SessionEvent {
    type V = SessionEventView;

    open spec fn view(&self) -> SessionEventView {
        match *self {
            SessionEvent::Terminals { input, output } => SessionEventView::Terminals {
                input,
                output,
            },
            SessionEvent::Measured(size) => SessionEventView::Measured(size),
            SessionEvent::Done => SessionEventView::Done,
            SessionEvent::Failed(cause) => SessionEventView::Failed(cause@),
            SessionEvent::Exited { success, status } => SessionEventView::Exited {
                success,
                status: status@,
            },
        }
    }
}

/// What to do next.
#[derive(Debug)]
pub enum SessionAction {
    Measure,
    /// Open a terminal of this size for the sandbox.
    OpenTerminal { columns: u16, rows: u16 },
    Spawn,
    Connect,
    EnterRawMode,
    /// Start the relays and the clipboard worker, and wait for the command.
    Relay,
    /// Stop the clipboard worker, let the output end and leave raw mode. The
    /// session has this outcome.
    ShutDown(Result<(), Error>),
    Fail(Error),
}

pub enum SessionActionView {
    Measure,
    OpenTerminal { columns: u16, rows: u16 },
    Spawn,
    Connect,
    EnterRawMode,
    Relay,
    ShutDown(Result<(), Failure<Seq<char>>>),
    Fail(Failure<Seq<char>>),
}

impl View for SessionAction {
    type V = SessionActionView;

    open spec fn view(&self) -> SessionActionView {
        match *self {
            SessionAction::Measure => SessionActionView::Measure,
            SessionAction::OpenTerminal { columns, rows } => SessionActionView::OpenTerminal {
                columns,
                rows,
            },
            SessionAction::Spawn => SessionActionView::Spawn,
            SessionAction::Connect => SessionActionView::Connect,
            SessionAction::EnterRawMode => SessionActionView::EnterRawMode,
            SessionAction::Relay => SessionActionView::Relay,
            SessionAction::ShutDown(outcome) => SessionActionView::ShutDown(
                match outcome {
                    Ok(()) => Ok(()),
                    Err(error) => Err(error@),
                },
            ),
            SessionAction::Fail(error) => SessionActionView::Fail(error@),
        }
    }
}

/// The events that can come in a stage.
pub open spec fn session_event_fits(stage: SessionStage, event: SessionEventView) -> bool {
    match stage {
        SessionStage::Starting => event is Terminals,
        SessionStage::Measuring => event is Measured,
        SessionStage::Opening
        | SessionStage::Spawning
        | SessionStage::Connecting
        | SessionStage::EnteringRawMode => event is Done || event is Failed,
        SessionStage::Running => event is Exited || event is Failed,
        SessionStage::Ended => false,
    }
}

/// The outcome of a session whose command ended.
pub open spec fn outcome(success: bool, status: Seq<char>) -> Result<(), Failure<Seq<char>>> {
    if success {
        Ok(())
    } else {
        Err(Failure::SessionEnded(status))
    }
}

/// The next stage, and what to do.
pub open spec fn session_step(stage: SessionStage, event: SessionEventView) -> (
    SessionStage,
    SessionActionView,
) {
    match event {
        SessionEventView::Terminals { input, output } => if input && output {
            (SessionStage::Measuring, SessionActionView::Measure)
        } else {
            (SessionStage::Ended, SessionActionView::Fail(Failure::NotATerminal))
        },
        SessionEventView::Measured(size) => {
            let (columns, rows) = match size {
                Some(size) => size,
                None => DEFAULT_SIZE,
            };
            (SessionStage::Opening, SessionActionView::OpenTerminal { columns, rows })
        },
        SessionEventView::Done => match stage {
            SessionStage::Opening => (SessionStage::Spawning, SessionActionView::Spawn),
            SessionStage::Spawning => (SessionStage::Connecting, SessionActionView::Connect),
            SessionStage::Connecting => (
                SessionStage::EnteringRawMode,
                SessionActionView::EnterRawMode,
            ),
            _ => (SessionStage::Running, SessionActionView::Relay),
        },
        SessionEventView::Failed(cause) => (
            SessionStage::Ended,
            SessionActionView::Fail(Failure::Reported(cause)),
        ),
        SessionEventView::Exited { success, status } => (
            SessionStage::Ended,
            SessionActionView::ShutDown(outcome(success, status)),
        ),
    }
}

/// Runs a session: takes one event, and says what to do next.
pub fn run(stage: &mut SessionStage, event: SessionEvent) -> (r: SessionAction)
    requires
        session_event_fits(*old(stage), event@),
    ensures
        (*final(stage), r@) == session_step(*old(stage), event@),
{
    match event {
        SessionEvent::Terminals { input, output } => if input && output {
            *stage = SessionStage::Measuring;
            SessionAction::Measure
        } else {
            *stage = SessionStage::Ended;
            SessionAction::Fail(Failure::NotATerminal)
        },
        SessionEvent::Measured(size) => {
            *stage = SessionStage::Opening;
            let (columns, rows) = match size {
                Some(size) => size,
                None => DEFAULT_SIZE,
            };
            SessionAction::OpenTerminal { columns, rows }
        },
        SessionEvent::Done => match *stage {
            SessionStage::Opening => {
                *stage = SessionStage::Spawning;
                SessionAction::Spawn
            },
            SessionStage::Spawning => {
                *stage = SessionStage::Connecting;
                SessionAction::Connect
            },
            SessionStage::Connecting => {
                *stage = SessionStage::EnteringRawMode;
                SessionAction::EnterRawMode
            },
            _ => {
                *stage = SessionStage::Running;
                SessionAction::Relay
            },
        },
        SessionEvent::Failed(cause) => {
            *stage = SessionStage::Ended;
            SessionAction::Fail(Failure::Reported(cause))
        },
        SessionEvent::Exited { success, status } => {
            *stage = SessionStage::Ended;
            if success {
                SessionAction::ShutDown(Ok(()))
            } else {
                SessionAction::ShutDown(Err(Failure::SessionEnded(status)))
            }
        },
    }
}

/// The size that a terminal of the size `last` has to be changed to.
pub open spec fn new_size(last: (u16, u16), reported: Option<(u16, u16)>) -> Option<(u16, u16)> {
    if reported is Some && reported->0 != last {
        reported
    } else {
        None
    }
}

/// The size that the sandbox's terminal has to be changed to. `last` is the size
/// it has, `reported` what the terminal here tells; where it tells nothing the
/// size stays.
pub fn resize_loop(last: (u16, u16), reported: Option<(u16, u16)>) -> (r: Option<(u16, u16)>)
    ensures
        r == new_size(last, reported),
        r == match reported {
            Some(current) => if current == last {
                None
            } else {
                Some(current)
            },
            None => None,
        },
{
    match reported {
        Some((columns, rows)) => if columns == last.0 && rows == last.1 {
            None
        } else {
            Some((columns, rows))
        },
        None => None,
    }
}

/// Without a terminal for input and output nothing is started: the session fails
/// at once.
pub proof fn law_session_needs_two_terminals(input: bool, output: bool)
    ensures
        ({
            let (stage, action) = session_step(
                SessionStage::Starting,
                SessionEventView::Terminals { input, output },
            );
            !(input && output) <==> stage == SessionStage::Ended && action
                == SessionActionView::Fail(Failure::NotATerminal)
        }),
{
}

/// The stage after all `events`.
pub open spec fn stage_after(events: Seq<SessionEventView>) -> SessionStage
    decreases events.len(),
{
    if events.len() == 0 {
        SessionStage::Starting
    } else {
        session_step(stage_after(events.drop_last()), events.last()).0
    }
}

/// Each of the events can come when it comes.
pub open spec fn session_events_fit(events: Seq<SessionEventView>) -> bool
    decreases events.len(),
{
    events.len() > 0 ==> {
        &&& session_events_fit(events.drop_last())
        &&& session_event_fits(stage_after(events.drop_last()), events.last())
    }
}

/// The relays run only once the terminal has been measured, a terminal of that
/// size has been opened, the command started and raw mode entered, in that order
/// and without a failure.
pub proof fn law_relays_run_last(events: Seq<SessionEventView>)
    requires
        session_events_fit(events),
        stage_after(events) == SessionStage::Running,
    ensures
        events.len() == 6,
        events[0] == (SessionEventView::Terminals { input: true, output: true }),
        events[1] is Measured,
        forall|i: int| 2 <= i < 6 ==> #[trigger] events[i] is Done,
{
    let e5 = events.drop_last();
    assert(stage_after(e5) == SessionStage::EnteringRawMode && events.last() is Done);
    let e4 = e5.drop_last();
    assert(session_events_fit(e5));
    assert(stage_after(e4) == SessionStage::Connecting && e5.last() is Done);
    let e3 = e4.drop_last();
    assert(session_events_fit(e4));
    assert(stage_after(e3) == SessionStage::Spawning && e4.last() is Done);
    let e2 = e3.drop_last();
    assert(session_events_fit(e3));
    assert(stage_after(e2) == SessionStage::Opening && e3.last() is Done);
    let e1 = e2.drop_last();
    assert(session_events_fit(e2));
    assert(stage_after(e1) == SessionStage::Measuring && e2.last() is Measured);
    assert(session_events_fit(e1));
    assert(stage_after(e1.drop_last()) == SessionStage::Starting);
    if e1.drop_last().len() > 0 {
        assert(session_events_fit(e1.drop_last()));
        assert(false);
    }
}

/// The sandbox's terminal follows the one here: with the change made, it has the
/// size that was reported, or its own where none was; and no change is made where
/// it has it already.
pub proof fn law_size_follows_the_terminal(
    columns: u16,
    rows: u16,
    last_columns: u16,
    last_rows: u16,
)
    ensures
        ({
            let change = new_size((last_columns, last_rows), Some((columns, rows)));
            &&& change is None ==> columns == last_columns && rows == last_rows
            &&& change is Some ==> change == Some((columns, rows))
            &&& columns == last_columns && rows == last_rows ==> change is None
            &&& new_size((last_columns, last_rows), None) is None
        }),
{
}

/// The sandbox's terminal is opened with the columns and rows of the one here, or
/// with 80 columns and 24 rows where it does not tell them.
pub proof fn law_terminal_is_opened_as_measured(columns: u16, rows: u16)
    ensures
        session_step(
            SessionStage::Measuring,
            SessionEventView::Measured(Some((columns, rows))),
        ) == (SessionStage::Opening, SessionActionView::OpenTerminal { columns, rows }),
        session_step(SessionStage::Measuring, SessionEventView::Measured(None)) == (
            SessionStage::Opening,
            SessionActionView::OpenTerminal { columns: 80, rows: 24 },
        ),
{
}

/// A session has the outcome of its command: success where that succeeded, and
/// else its status. A failure on the way ends the session, and is told as it is.
pub proof fn law_session_ends_as_its_command(
    stage: SessionStage,
    status: Seq<char>,
    cause: Seq<char>,
)
    requires
        session_event_fits(stage, SessionEventView::Failed(cause)),
    ensures
        session_step(
            SessionStage::Running,
            SessionEventView::Exited { success: true, status },
        ) == (SessionStage::Ended, SessionActionView::ShutDown(Ok(()))),
        session_step(
            SessionStage::Running,
            SessionEventView::Exited { success: false, status },
        ) == (
            SessionStage::Ended,
            SessionActionView::ShutDown(Err(Failure::SessionEnded(status))),
        ),
        session_step(stage, SessionEventView::Failed(cause)) == (
            SessionStage::Ended,
            SessionActionView::Fail(Failure::Reported(cause)),
        ),
{
}

/// What succeeds leads on in a fixed order: two terminals to measuring them, an
/// open terminal to the command, that to its streams, those to raw mode and that
/// to the relays.
pub proof fn law_session_goes_in_order(stage: SessionStage)
    requires
        session_event_fits(stage, SessionEventView::Done),
    ensures
        session_step(
            SessionStage::Starting,
            SessionEventView::Terminals { input: true, output: true },
        ) == (SessionStage::Measuring, SessionActionView::Measure),
        session_step(stage, SessionEventView::Done) == match stage {
            SessionStage::Opening => (SessionStage::Spawning, SessionActionView::Spawn),
            SessionStage::Spawning => (SessionStage::Connecting, SessionActionView::Connect),
            SessionStage::Connecting => (
                SessionStage::EnteringRawMode,
                SessionActionView::EnterRawMode,
            ),
            _ => (SessionStage::Running, SessionActionView::Relay),
        },
{
}

} // verus!
