//! The output loop: it shows what the program in the sandbox writes, once the
//! input relay can take the terminal's replies.

use vstd::prelude::*;

use crate::error::{Error, Failure};
use crate::session::modes;
use crate::session::modes::TerminalModes;

verus! {

/// What the output loop waits for.
#[derive(Clone, Copy, Debug, PartialEq, Eq, Structural)]
pub enum OutputPhase {
    /// The input relay to be ready: some programs query the terminal at once,
    /// and its replies must find the relay.
    WaitingForInput,
    /// The next read of the sandbox's output.
    Reading,
    /// The end of a write to the terminal.
    Writing,
    /// The end of a flush.
    Flushing,
    /// Nothing: it has ended.
    Ended,
}

/// What happened.
#[derive(Debug)]
pub enum OutputEvent {
    /// The input relay is ready, or it has stopped before it was.
    InputRelay { ready: bool },
    /// The sandbox gave these bytes; none at its end.
    Read(Vec<u8>),
    /// What was written or flushed last got through.
    Done,
    /// What was read, written or flushed last failed.
    Failed(String),
}

pub enum OutputEventView {
    InputRelay { ready: bool },
    Read(Seq<u8>),
    Done,
    Failed(Seq<char>),
}

impl View for OutputEvent {
    type V = OutputEventView;

    open spec fn view(&self) -> OutputEventView {
        match *self {
            OutputEvent::InputRelay { ready } => OutputEventView::InputRelay { ready },
            OutputEvent::Read(bytes) => OutputEventView::Read(bytes@),
            OutputEvent::Done => OutputEventView::Done,
            OutputEvent::Failed(cause) => OutputEventView::Failed(cause@),
        }
    }
}

/// What to do next.
#[derive(Debug)]
pub enum OutputAction {
    Read,
    Write(Vec<u8>),
    Flush,
    Finish,
    Fail(Error),
}

pub enum OutputActionView {
    Read,
    Write(Seq<u8>),
    Flush,
    Finish,
    Fail(Failure<Seq<char>>),
}

impl View for OutputAction {
    type V = OutputActionView;

    open spec fn view(&self) -> OutputActionView {
        match *self {
            OutputAction::Read => OutputActionView::Read,
            OutputAction::Write(bytes) => OutputActionView::Write(bytes@),
            OutputAction::Flush => OutputActionView::Flush,
            OutputAction::Finish => OutputActionView::Finish,
            OutputAction::Fail(error) => OutputActionView::Fail(error@),
        }
    }
}

/// The output loop's state.
#[verifier::ext_equal]
pub struct OutputLoopView {
    pub phase: OutputPhase,
    /// The last bytes, which may still become part of a switch.
    pub tail: Seq<u8>,
    /// Whether the program has asked for bracketed paste.
    pub bracketed_paste: bool,
}

/// The events that can come in a phase.
pub open spec fn output_event_fits(phase: OutputPhase, event: OutputEventView) -> bool {
    match phase {
        OutputPhase::WaitingForInput => event is InputRelay,
        OutputPhase::Reading => event is Read || event is Failed,
        OutputPhase::Writing | OutputPhase::Flushing => event is Done || event is Failed,
        OutputPhase::Ended => false,
    }
}

/// The loop's next state, and what it does.
pub open spec fn output_step(state: OutputLoopView, event: OutputEventView) -> (
    OutputLoopView,
    OutputActionView,
) {
    let ended = OutputLoopView { phase: OutputPhase::Ended, ..state };
    let reading = (
        OutputLoopView { phase: OutputPhase::Reading, ..state },
        OutputActionView::Read,
    );
    match event {
        OutputEventView::InputRelay { ready } => if ready {
            reading
        } else {
            (ended, OutputActionView::Fail(Failure::InputRelayStopped))
        },
        OutputEventView::Failed(cause) => (ended, OutputActionView::Fail(Failure::Reported(cause))),
        OutputEventView::Done => if state.phase == OutputPhase::Writing {
            (
                OutputLoopView { phase: OutputPhase::Flushing, ..state },
                OutputActionView::Flush,
            )
        } else {
            reading
        },
        OutputEventView::Read(bytes) => if bytes.len() == 0 {
            (ended, OutputActionView::Finish)
        } else {
            (
                OutputLoopView {
                    phase: OutputPhase::Writing,
                    tail: modes::switch_tail(state.tail + bytes),
                    bracketed_paste: modes::mode_after(state.tail + bytes, state.bracketed_paste),
                },
                OutputActionView::Write(bytes),
            )
        },
    }
}

/// The loop before anything has happened.
pub open spec fn new_output_loop() -> OutputLoopView {
    OutputLoopView {
        phase: OutputPhase::WaitingForInput,
        tail: Seq::empty(),
        bracketed_paste: false,
    }
}

/// The output loop.
#[derive(Debug)]
pub struct OutputLoop {
    phase: OutputPhase,
    modes: TerminalModes,
    bracketed_paste: bool,
}

impl Default for OutputLoop {
    fn default() -> (r: Self)
        ensures
            r.state() == new_output_loop(),
    {
        OutputLoop {
            phase: OutputPhase::WaitingForInput,
            modes: TerminalModes::default(),
            bracketed_paste: false,
        }
    }
}

impl OutputLoop {
    /// The state that the contracts speak of.
    pub closed spec fn state(&self) -> OutputLoopView {
        OutputLoopView {
            phase: self.phase,
            tail: self.modes.tail(),
            bracketed_paste: self.bracketed_paste,
        }
    }

    /// Whether the program has asked for bracketed paste.
    pub fn bracketed_paste(&self) -> (r: bool)
        ensures
            r == self.state().bracketed_paste,
    {
        self.bracketed_paste
    }

    /// Takes one event and says what to do next.
    pub fn relay_output_after_input_ready(&mut self, event: OutputEvent) -> (r: OutputAction)
        requires
            output_event_fits(old(self).state().phase, event@),
        ensures
            (final(self).state(), r@) == output_step(old(self).state(), event@),
    {
        match event {
            OutputEvent::InputRelay { ready } => if ready {
                self.phase = OutputPhase::Reading;
                OutputAction::Read
            } else {
                self.phase = OutputPhase::Ended;
                OutputAction::Fail(Failure::InputRelayStopped)
            },
            OutputEvent::Failed(cause) => {
                self.phase = OutputPhase::Ended;
                OutputAction::Fail(Failure::Reported(cause))
            },
            OutputEvent::Done => if self.phase == OutputPhase::Writing {
                self.phase = OutputPhase::Flushing;
                OutputAction::Flush
            } else {
                self.phase = OutputPhase::Reading;
                OutputAction::Read
            },
            OutputEvent::Read(bytes) => if bytes.len() == 0 {
                self.phase = OutputPhase::Ended;
                OutputAction::Finish
            } else {
                self.modes.observe(bytes.as_slice(), &mut self.bracketed_paste);
                self.phase = OutputPhase::Writing;
                OutputAction::Write(bytes)
            },
        }
    }
}

/// Nothing of the output is read or shown before the input relay is ready; if
/// the relay has stopped, nothing ever is.
pub proof fn law_output_waits_for_the_input_relay(state: OutputLoopView, event: OutputEventView)
    requires
        state.phase == OutputPhase::WaitingForInput,
        output_event_fits(state.phase, event),
    ensures
        ({
            let (next, action) = output_step(state, event);
            &&& action is Read <==> event == (OutputEventView::InputRelay { ready: true })
            &&& action !is Read ==> action == OutputActionView::Fail(Failure::InputRelayStopped)
                && next.phase == OutputPhase::Ended
        }),
{
}

/// Each read is shown byte for byte and flushed before the next read.
pub proof fn law_each_read_is_written_and_flushed(state: OutputLoopView, bytes: Seq<u8>)
    requires
        state.phase == OutputPhase::Reading,
        bytes.len() > 0,
    ensures
        ({
            let (written, write) = output_step(state, OutputEventView::Read(bytes));
            let (flushed, flush) = output_step(written, OutputEventView::Done);
            let (next, read) = output_step(flushed, OutputEventView::Done);
            &&& write == OutputActionView::Write(bytes)
            &&& flush is Flush
            &&& read is Read
            &&& next.phase == OutputPhase::Reading
        }),
{
}

/// The loop after it has read, shown and flushed all `parts`.
pub open spec fn after_reads(parts: Seq<Seq<u8>>) -> OutputLoopView
    decreases parts.len(),
{
    if parts.len() == 0 {
        output_step(new_output_loop(), OutputEventView::InputRelay { ready: true }).0
    } else {
        let before = after_reads(parts.drop_last());
        let written = output_step(before, OutputEventView::Read(parts.last())).0;
        let flushed = output_step(written, OutputEventView::Done).0;
        output_step(flushed, OutputEventView::Done).0
    }
}

/// However the output was cut into reads, the loop knows the mode that all of it
/// together asks for.
pub proof fn law_mode_is_known_after_any_reads(parts: Seq<Seq<u8>>)
    requires
        forall|i: int| 0 <= i < parts.len() ==> (#[trigger] parts[i]).len() > 0,
    ensures
        after_reads(parts).phase == OutputPhase::Reading,
        after_reads(parts).bracketed_paste == modes::mode_after(modes::joined(parts), false),
{
    lemma_reads_are_watched(parts);
    modes::law_mode_is_that_of_all_output(parts, false);
}

proof fn lemma_reads_are_watched(parts: Seq<Seq<u8>>)
    requires
        forall|i: int| 0 <= i < parts.len() ==> (#[trigger] parts[i]).len() > 0,
    ensures
        after_reads(parts).phase == OutputPhase::Reading,
        (after_reads(parts).tail, after_reads(parts).bracketed_paste) == modes::watched(
            parts,
            false,
        ),
    decreases parts.len(),
{
    if parts.len() > 0 {
        let front = parts.drop_last();
        assert forall|i: int| 0 <= i < front.len() implies (#[trigger] front[i]).len() > 0 by {
            assert(front[i] == parts[i]);
        }
        lemma_reads_are_watched(front);
    }
}

/// The output ends well with the sandbox's output, and fails with what a read, a
/// write or a flush reports; it ends nowhere else.
pub proof fn law_output_ends_when_it_must(state: OutputLoopView, event: OutputEventView)
    requires
        output_event_fits(state.phase, event),
        state.phase != OutputPhase::WaitingForInput,
    ensures
        ({
            let (next, action) = output_step(state, event);
            &&& action is Finish <==> (event matches OutputEventView::Read(bytes) && bytes.len()
                == 0)
            &&& action is Fail <==> event is Failed
            &&& event matches OutputEventView::Failed(cause) ==> action == OutputActionView::Fail(
                Failure::Reported(cause),
            )
            &&& next.phase == OutputPhase::Ended <==> action is Finish || action is Fail
        }),
{
}

} // verus!
