//! The input loop: it reads the terminal, relays what it reads, and asks the
//! clipboard worker for what the relay found.

use vstd::prelude::*;

use crate::session::paste::ClipboardRequest;
use crate::session::relay;
use crate::session::relay::{InputRelay, Relayed};

verus! {

/// What the input loop waits for.
#[derive(Clone, Copy, Debug, PartialEq, Eq, Structural)]
pub enum InputPhase {
    /// Word that it is ready to have been taken.
    Starting,
    /// The next read of the terminal.
    Reading,
    /// The end of a write to the sandbox.
    Writing,
    /// A request to have been taken by the clipboard worker.
    Requesting,
    /// Nothing: it has stopped.
    Stopped,
}

/// What happened.
#[derive(Debug)]
pub enum InputEvent {
    /// What was sent last was taken, or nobody is there to take it.
    Sent(bool),
    /// The terminal gave these bytes; none at its end.
    Read(Vec<u8>),
    ReadFailed,
    /// All bytes were written and flushed, or they could not be.
    Written(bool),
}

pub enum InputEventView {
    Sent(bool),
    Read(Seq<u8>),
    ReadFailed,
    Written(bool),
}

impl View for InputEvent {
    type V = InputEventView;

    open spec fn view(&self) -> InputEventView {
        match *self {
            InputEvent::Sent(taken) => InputEventView::Sent(taken),
            InputEvent::Read(bytes) => InputEventView::Read(bytes@),
            InputEvent::ReadFailed => InputEventView::ReadFailed,
            InputEvent::Written(done) => InputEventView::Written(done),
        }
    }
}

/// What to do next.
#[derive(Debug)]
pub enum InputAction {
    Read,
    /// Write these bytes to the sandbox and flush.
    Write(Vec<u8>),
    /// Send this request to the clipboard worker.
    Request(ClipboardRequest),
    Stop,
}

pub enum InputActionView {
    Read,
    Write(Seq<u8>),
    Request(ClipboardRequest),
    Stop,
}

impl View for InputAction {
    type V = InputActionView;

    open spec fn view(&self) -> InputActionView {
        match *self {
            InputAction::Read => InputActionView::Read,
            InputAction::Write(bytes) => InputActionView::Write(bytes@),
            InputAction::Request(request) => InputActionView::Request(request),
            InputAction::Stop => InputActionView::Stop,
        }
    }
}

/// The input loop's state.
#[verifier::ext_equal]
pub struct InputLoopView {
    pub phase: InputPhase,
    pub clipboard_enabled: bool,
    /// The bytes that the relay keeps for the next read.
    pub held: Seq<u8>,
    /// The terminal has replied, and the worker is not told yet.
    pub replied: bool,
    /// How many pastes are still to be asked for.
    pub pastes: nat,
}

/// The events that can come in a phase.
pub open spec fn input_event_fits(phase: InputPhase, event: InputEventView) -> bool {
    match phase {
        InputPhase::Starting | InputPhase::Requesting => event is Sent,
        InputPhase::Reading => event is Read || event is ReadFailed,
        InputPhase::Writing => event is Written,
        InputPhase::Stopped => false,
    }
}

/// What the relay makes of one read: with the clipboard disabled, everything
/// passes through.
pub open spec fn read_relayed(held: Seq<u8>, input: Seq<u8>, clipboard_enabled: bool) -> Relayed {
    if clipboard_enabled {
        relay::relay_of(held + input)
    } else {
        Relayed { output: held + input, ..relay::nothing_relayed() }
    }
}

/// Once the bytes are written, the worker is told of a reply first and then of
/// each paste; after that the terminal is read again.
pub open spec fn next_request(state: InputLoopView) -> (InputLoopView, InputActionView) {
    if state.replied {
        (
            InputLoopView { phase: InputPhase::Requesting, replied: false, ..state },
            InputActionView::Request(ClipboardRequest::Warmup),
        )
    } else if state.pastes > 0 {
        (
            InputLoopView {
                phase: InputPhase::Requesting,
                pastes: (state.pastes - 1) as nat,
                ..state
            },
            InputActionView::Request(ClipboardRequest::Paste),
        )
    } else {
        (InputLoopView { phase: InputPhase::Reading, ..state }, InputActionView::Read)
    }
}

/// The loop's next state, and what it does.
pub open spec fn input_step(state: InputLoopView, event: InputEventView) -> (
    InputLoopView,
    InputActionView,
) {
    let stopped = (
        InputLoopView { phase: InputPhase::Stopped, ..state },
        InputActionView::Stop,
    );
    match event {
        InputEventView::Sent(taken) => if taken {
            next_request(state)
        } else {
            stopped
        },
        InputEventView::Written(done) => if done {
            next_request(state)
        } else {
            stopped
        },
        InputEventView::ReadFailed => stopped,
        InputEventView::Read(bytes) => if bytes.len() == 0 {
            stopped
        } else {
            let relayed = read_relayed(state.held, bytes, state.clipboard_enabled);
            (
                InputLoopView {
                    phase: InputPhase::Writing,
                    clipboard_enabled: state.clipboard_enabled,
                    held: relayed.held,
                    replied: state.replied || relayed.reply,
                    pastes: relayed.pastes,
                },
                InputActionView::Write(relayed.output),
            )
        },
    }
}

/// The loop before it has said that it is ready.
pub open spec fn new_input_loop(clipboard_enabled: bool) -> InputLoopView {
    InputLoopView {
        phase: InputPhase::Starting,
        clipboard_enabled,
        held: Seq::empty(),
        replied: false,
        pastes: 0,
    }
}

/// The input loop.
#[derive(Debug)]
pub struct InputLoop {
    phase: InputPhase,
    clipboard_enabled: bool,
    relay: InputRelay,
    pastes: usize,
}

impl InputLoop {
    /// The state that the contracts speak of.
    pub closed spec fn state(&self) -> InputLoopView {
        InputLoopView {
            phase: self.phase,
            clipboard_enabled: self.clipboard_enabled,
            held: self.relay.held(),
            replied: self.relay.replied(),
            pastes: self.pastes as nat,
        }
    }

    /// A loop that has still to say that it is ready.
    pub fn new(clipboard_enabled: bool) -> (r: Self)
        ensures
            r.state() == new_input_loop(clipboard_enabled),
    {
        InputLoop {
            phase: InputPhase::Starting,
            clipboard_enabled,
            relay: InputRelay::default(),
            pastes: 0,
        }
    }

    fn request(&mut self) -> (r: InputAction)
        ensures
            (final(self).state(), r@) == next_request(old(self).state()),
    {
        if self.relay.take_terminal_response() {
            self.phase = InputPhase::Requesting;
            InputAction::Request(ClipboardRequest::Warmup)
        } else if self.pastes > 0 {
            self.phase = InputPhase::Requesting;
            self.pastes = self.pastes - 1;
            InputAction::Request(ClipboardRequest::Paste)
        } else {
            self.phase = InputPhase::Reading;
            InputAction::Read
        }
    }

    /// Takes one event and says what to do next.
    pub fn input_loop(&mut self, event: InputEvent) -> (r: InputAction)
        requires
            input_event_fits(old(self).state().phase, event@),
        ensures
            (final(self).state(), r@) == input_step(old(self).state(), event@),
    {
        let going_on = match event {
            InputEvent::Read(bytes) => {
                if bytes.len() == 0 {
                    false
                } else {
                    let mut output: Vec<u8> = Vec::new();
                    let ghost held = self.relay.held();
                    self.pastes = self.relay.forward(
                        &mut output,
                        bytes.as_slice(),
                        self.clipboard_enabled,
                    );
                    self.phase = InputPhase::Writing;
                    proof {
                        let relayed = read_relayed(held, bytes@, self.clipboard_enabled);
                        assert(output@ =~= relayed.output);
                    }
                    return InputAction::Write(output);
                }
            },
            InputEvent::Sent(taken) => taken,
            InputEvent::Written(done) => done,
            InputEvent::ReadFailed => false,
        };
        if going_on {
            self.request()
        } else {
            self.phase = InputPhase::Stopped;
            InputAction::Stop
        }
    }
}

/// What the loop does when everything it waits for succeeds, up to its next
/// read of the terminal: at most `fuel` actions.
pub open spec fn undisturbed(
    state: InputLoopView,
    action: InputActionView,
    fuel: nat,
) -> Seq<InputActionView>
    decreases fuel,
{
    if fuel == 0 {
        Seq::empty()
    } else {
        match action {
            InputActionView::Read | InputActionView::Stop => seq![action],
            InputActionView::Write(bytes) => {
                let (next, then) = input_step(state, InputEventView::Written(true));
                seq![action] + undisturbed(next, then, (fuel - 1) as nat)
            },
            InputActionView::Request(request) => {
                let (next, then) = input_step(state, InputEventView::Sent(true));
                seq![action] + undisturbed(next, then, (fuel - 1) as nat)
            },
        }
    }
}

/// One request for each paste.
pub open spec fn paste_requests(count: nat) -> Seq<InputActionView> {
    Seq::new(count, |i: int| InputActionView::Request(ClipboardRequest::Paste))
}

proof fn lemma_pastes_are_requested(state: InputLoopView, fuel: nat)
    requires
        !state.replied,
        fuel > state.pastes,
    ensures
        ({
            let (next, action) = next_request(state);
            undisturbed(next, action, fuel) == paste_requests(state.pastes)
                + seq![InputActionView::Read]
        }),
    decreases state.pastes,
{
    let (next, action) = next_request(state);
    if state.pastes == 0 {
        assert(undisturbed(next, action, fuel) =~= paste_requests(0)
            + seq![InputActionView::Read]);
    } else {
        lemma_pastes_are_requested(next, (fuel - 1) as nat);
        assert(seq![action] + paste_requests(next.pastes) =~= paste_requests(state.pastes));
        assert(undisturbed(next, action, fuel) =~= paste_requests(state.pastes)
            + seq![InputActionView::Read]);
    }
}

/// After each read the relayed bytes are written first. Then the clipboard
/// worker is asked to prepare, if and only if the terminal replied, and asked
/// once for every paste that the relay counted. Then the terminal is read again.
pub proof fn law_each_read_is_carried_out(state: InputLoopView, bytes: Seq<u8>)
    requires
        state.phase == InputPhase::Reading,
        !state.replied,
        bytes.len() > 0,
    ensures
        ({
            let relayed = read_relayed(state.held, bytes, state.clipboard_enabled);
            let (next, action) = input_step(state, InputEventView::Read(bytes));
            let warmup = if relayed.reply {
                seq![InputActionView::Request(ClipboardRequest::Warmup)]
            } else {
                Seq::empty()
            };
            undisturbed(next, action, relayed.pastes + 3) == seq![
                InputActionView::Write(relayed.output),
            ] + warmup + paste_requests(relayed.pastes) + seq![InputActionView::Read]
        }),
{
    let relayed = read_relayed(state.held, bytes, state.clipboard_enabled);
    let (written, write) = input_step(state, InputEventView::Read(bytes));
    let (next, action) = next_request(written);
    let fuel = relayed.pastes + 3;
    let end = paste_requests(relayed.pastes) + seq![InputActionView::Read];
    if relayed.reply {
        let (later, then) = next_request(next);
        lemma_pastes_are_requested(next, relayed.pastes + 1);
        assert(undisturbed(next, action, relayed.pastes + 2) == seq![action] + undisturbed(
            later,
            then,
            relayed.pastes + 1,
        ));
    } else {
        lemma_pastes_are_requested(written, relayed.pastes + 2);
    }
    let warmup = if relayed.reply {
        seq![InputActionView::Request(ClipboardRequest::Warmup)]
    } else {
        Seq::empty()
    };
    assert(undisturbed(written, write, fuel) == seq![write] + undisturbed(
        next,
        action,
        relayed.pastes + 2,
    ));
    assert(undisturbed(written, write, fuel) =~= seq![InputActionView::Write(relayed.output)]
        + warmup + paste_requests(relayed.pastes) + seq![InputActionView::Read]);
}

/// The loop after all `events`.
pub open spec fn input_after(clipboard_enabled: bool, events: Seq<InputEventView>) -> InputLoopView
    decreases events.len(),
{
    if events.len() == 0 {
        new_input_loop(clipboard_enabled)
    } else {
        input_step(input_after(clipboard_enabled, events.drop_last()), events.last()).0
    }
}

/// At no time does the loop keep more than an unfinished escape sequence of
/// bounded length.
pub proof fn law_loop_keeps_little(clipboard_enabled: bool, events: Seq<InputEventView>)
    ensures
        relay::may_be_held(input_after(clipboard_enabled, events).held),
    decreases events.len(),
{
    if events.len() > 0 {
        let before = input_after(clipboard_enabled, events.drop_last());
        law_loop_keeps_little(clipboard_enabled, events.drop_last());
        if let InputEventView::Read(bytes) = events.last() {
            relay::law_held_input_is_bounded(before.held + bytes);
        }
    }
}

/// Whenever the terminal is read, no request is outstanding: every reply and
/// every paste found in earlier reads has been passed on.
pub proof fn law_no_request_is_outstanding_at_a_read(state: InputLoopView, event: InputEventView)
    requires
        input_event_fits(state.phase, event),
        input_step(state, event).1 is Read,
    ensures
        ({
            let next = input_step(state, event).0;
            next.phase == InputPhase::Reading && !next.replied && next.pastes == 0
        }),
{
}

/// With the clipboard disabled the loop never keeps a byte, a reply or a paste.
proof fn lemma_disabled_loop_keeps_nothing(events: Seq<InputEventView>)
    ensures
        ({
            let state = input_after(false, events);
            &&& !state.clipboard_enabled
            &&& state.held == Seq::<u8>::empty()
            &&& !state.replied
            &&& state.pastes == 0
        }),
    decreases events.len(),
{
    if events.len() > 0 {
        lemma_disabled_loop_keeps_nothing(events.drop_last());
    }
}

/// With the clipboard disabled every read passes through as it is, whatever came
/// before it, and nothing is asked of the clipboard worker.
pub proof fn law_disabled_clipboard_passes_everything(
    events: Seq<InputEventView>,
    bytes: Seq<u8>,
)
    requires
        input_after(false, events).phase == InputPhase::Reading,
        bytes.len() > 0,
    ensures
        ({
            let state = input_after(false, events);
            let (next, action) = input_step(state, InputEventView::Read(bytes));
            &&& action == InputActionView::Write(bytes)
            &&& input_step(next, InputEventView::Written(true)) == (state, InputActionView::Read)
        }),
{
    let state = input_after(false, events);
    lemma_disabled_loop_keeps_nothing(events);
    assert(state.held + bytes =~= bytes);
    let (next, action) = input_step(state, InputEventView::Read(bytes));
    let after = input_step(next, InputEventView::Written(true)).0;
    assert(after =~= state);
}

/// Each read goes through the relay together with what it kept: the sandbox gets
/// what the relay forwards, all the pastes that it counts are asked for, and a
/// reply is passed on. With the clipboard disabled the read goes on as it is.
pub proof fn law_reads_go_through_the_relay(state: InputLoopView, bytes: Seq<u8>)
    requires
        state.phase == InputPhase::Reading,
        bytes.len() > 0,
    ensures
        ({
            let (next, action) = input_step(state, InputEventView::Read(bytes));
            let relayed = relay::relay_of(state.held + bytes);
            &&& next.clipboard_enabled == state.clipboard_enabled
            &&& state.clipboard_enabled ==> {
                &&& action == InputActionView::Write(relayed.output)
                &&& next.pastes == relayed.pastes
                &&& next.held == relayed.held
                &&& next.replied == (state.replied || relayed.reply)
            }
            &&& !state.clipboard_enabled ==> {
                &&& action == InputActionView::Write(state.held + bytes)
                &&& next.pastes == 0
                &&& next.held.len() == 0
                &&& next.replied == state.replied
            }
        }),
{
}

/// The loop stops where its input ends or fails, where the sandbox takes no more,
/// and where nobody takes what it sends; it stops nowhere else.
pub proof fn law_input_stops_when_it_must(state: InputLoopView, event: InputEventView)
    requires
        input_event_fits(state.phase, event),
    ensures
        input_step(state, event).1 is Stop <==> event is ReadFailed || event
            == InputEventView::Sent(false) || event == InputEventView::Written(false) || (
        event matches InputEventView::Read(bytes) && bytes.len() == 0),
        input_step(state, event).1 is Stop <==> input_step(state, event).0.phase
            == InputPhase::Stopped,
        input_step(new_input_loop(true), InputEventView::Sent(true)).1 is Read,
        input_step(new_input_loop(false), InputEventView::Sent(true)).1 is Read,
{
}

} // verus!
