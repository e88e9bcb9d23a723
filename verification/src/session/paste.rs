//! Pasting: the clipboard worker and what it writes.

use vstd::prelude::*;
use vstd::string::*;
use vstd::utf8::*;

use crate::session::relay::append_bytes;

verus! {

/// The bytes `ESC [ 2 0 0 ~` that start a bracketed paste.
pub open spec fn paste_start() -> Seq<u8> {
    seq![0x1bu8, 0x5b, 0x32, 0x30, 0x30, 0x7e]
}

/// The bytes `ESC [ 2 0 1 ~` that end a bracketed paste.
pub open spec fn paste_end() -> Seq<u8> {
    seq![0x1bu8, 0x5b, 0x32, 0x30, 0x31, 0x7e]
}

/// A paste as the program in the sandbox gets it.
pub open spec fn pasted(bytes: Seq<u8>, bracketed_paste: bool) -> Seq<u8> {
    if bracketed_paste {
        paste_start() + bytes + paste_end()
    } else {
        bytes
    }
}

/// Appends a paste to `writer`: the bytes as they are, between the brackets of
/// the protocol where the program has asked for them.
pub fn write_paste_bytes(writer: &mut Vec<u8>, bytes: &[u8], bracketed_paste: bool)
    ensures
        final(writer)@ == old(writer)@ + pasted(bytes@, bracketed_paste),
{
    if bracketed_paste {
        let start: [u8; 6] = [0x1b, 0x5b, 0x32, 0x30, 0x30, 0x7e];
        append_bytes(writer, start.as_slice());
        assert(start@ =~= paste_start());
    }
    append_bytes(writer, bytes);
    if bracketed_paste {
        let end: [u8; 6] = [0x1b, 0x5b, 0x32, 0x30, 0x31, 0x7e];
        append_bytes(writer, end.as_slice());
        assert(end@ =~= paste_end());
    }
    assert(writer@ =~= old(writer)@ + pasted(bytes@, bracketed_paste));
}

/// What is written for the pasted text `text`.
pub fn write_paste(text: &str, bracketed_paste: bool) -> (r: Vec<u8>)
    ensures
        r@ == pasted(encode_utf8(text@), bracketed_paste),
{
    let mut r: Vec<u8> = Vec::new();
    write_paste_bytes(&mut r, text.as_bytes(), bracketed_paste);
    assert(r@ =~= pasted(encode_utf8(text@), bracketed_paste));
    r
}

/// A message as it is shown beside the session.
pub open spec fn notice_text(message: Seq<char>) -> Seq<char> {
    "\r\nsbc: "@ + message + "\r\n"@
}

/// What the user is told beside the session.
pub fn terminal_notice(message: &str) -> (r: String)
    ensures
        r@ == notice_text(message@),
        r@ == "\r\nsbc: "@ + message@ + "\r\n"@,
{
    "\r\nsbc: ".to_owned().concat(message).concat("\r\n")
}

/// What the clipboard worker is asked to do.
#[derive(Clone, Copy, Debug, PartialEq, Eq, Structural)]
pub enum ClipboardRequest {
    /// The terminal has replied: prepare for images.
    Warmup,
    Paste,
    Shutdown,
}

/// What is known of the helper that takes images into the sandbox.
#[derive(Debug)]
pub enum Transfer {
    NotStarted,
    Failed(String),
    Ready,
}

pub enum TransferView {
    NotStarted,
    Failed(Seq<char>),
    Ready,
}

impl View for Transfer {
    type V = TransferView;

    open spec fn view(&self) -> TransferView {
        match *self {
            Transfer::NotStarted => TransferView::NotStarted,
            Transfer::Failed(cause) => TransferView::Failed(cause@),
            Transfer::Ready => TransferView::Ready,
        }
    }
}

/// What the clipboard worker waits for.
#[derive(Clone, Copy, Debug, PartialEq, Eq, Structural)]
pub enum Phase {
    /// The next request.
    Idle,
    /// The helper's start, on a warmup.
    WarmingUp,
    /// The clipboard's content.
    Reading,
    /// The helper's start, with an image to upload.
    StartingForImage,
    /// The end of an upload.
    Uploading,
    /// Nothing: it has stopped.
    Stopped,
}

/// What happened.
#[derive(Debug)]
pub enum ClipboardEvent {
    /// A request arrived; `done` tells whether the session has ended.
    Request { request: ClipboardRequest, done: bool },
    /// No more requests will come.
    Disconnected,
    TransferStarted,
    TransferFailed(String),
    ReadText(String),
    ReadImage,
    ReadFailed(String),
    Uploaded { path: String },
    UploadFailed(String),
}

pub enum ClipboardEventView {
    Request { request: ClipboardRequest, done: bool },
    Disconnected,
    TransferStarted,
    TransferFailed(Seq<char>),
    ReadText(Seq<char>),
    ReadImage,
    ReadFailed(Seq<char>),
    Uploaded { path: Seq<char> },
    UploadFailed(Seq<char>),
}

impl View for ClipboardEvent {
    type V = ClipboardEventView;

    open spec fn view(&self) -> ClipboardEventView {
        match *self {
            ClipboardEvent::Request { request, done } => ClipboardEventView::Request {
                request,
                done,
            },
            ClipboardEvent::Disconnected => ClipboardEventView::Disconnected,
            ClipboardEvent::TransferStarted => ClipboardEventView::TransferStarted,
            ClipboardEvent::TransferFailed(cause) => ClipboardEventView::TransferFailed(cause@),
            ClipboardEvent::ReadText(text) => ClipboardEventView::ReadText(text@),
            ClipboardEvent::ReadImage => ClipboardEventView::ReadImage,
            ClipboardEvent::ReadFailed(cause) => ClipboardEventView::ReadFailed(cause@),
            ClipboardEvent::Uploaded { path } => ClipboardEventView::Uploaded { path: path@ },
            ClipboardEvent::UploadFailed(cause) => ClipboardEventView::UploadFailed(cause@),
        }
    }
}

/// What to do next.
#[derive(Debug)]
pub enum ClipboardAction {
    Receive,
    StartTransfer,
    ReadClipboard,
    UploadImage,
    /// Write this paste, then receive.
    Paste(String),
    /// Tell the user this, then receive.
    Notice(String),
    Stop,
}

pub enum ClipboardActionView {
    Receive,
    StartTransfer,
    ReadClipboard,
    UploadImage,
    Paste(Seq<char>),
    Notice(Seq<char>),
    Stop,
}

impl View for ClipboardAction {
    type V = ClipboardActionView;

    open spec fn view(&self) -> ClipboardActionView {
        match *self {
            ClipboardAction::Receive => ClipboardActionView::Receive,
            ClipboardAction::StartTransfer => ClipboardActionView::StartTransfer,
            ClipboardAction::ReadClipboard => ClipboardActionView::ReadClipboard,
            ClipboardAction::UploadImage => ClipboardActionView::UploadImage,
            ClipboardAction::Paste(text) => ClipboardActionView::Paste(text@),
            ClipboardAction::Notice(text) => ClipboardActionView::Notice(text@),
            ClipboardAction::Stop => ClipboardActionView::Stop,
        }
    }
}

/// The clipboard worker's state: what it waits for and what it knows.
pub struct WorkerView {
    pub phase: Phase,
    pub transfer: TransferView,
}

/// The events that can come in a phase.
pub open spec fn event_fits(phase: Phase, event: ClipboardEventView) -> bool {
    match phase {
        Phase::Idle => event is Request || event is Disconnected,
        Phase::WarmingUp | Phase::StartingForImage => event is TransferStarted
            || event is TransferFailed,
        Phase::Reading => event is ReadText || event is ReadImage || event is ReadFailed,
        Phase::Uploading => event is Uploaded || event is UploadFailed,
        Phase::Stopped => false,
    }
}

/// The marker that stands for an image in the sandbox.
pub open spec fn image_marker(path: Seq<char>) -> Seq<char> {
    "[image: "@ + path + "]"@
}

pub open spec fn image_failed(cause: Seq<char>) -> Seq<char> {
    "image paste failed: "@ + cause
}

/// The worker's next state, and what it does.
pub open spec fn worker_step(worker: WorkerView, event: ClipboardEventView) -> (
    WorkerView,
    ClipboardActionView,
) {
    let idle = WorkerView { phase: Phase::Idle, ..worker };
    match event {
        ClipboardEventView::Disconnected => (
            WorkerView { phase: Phase::Stopped, ..worker },
            ClipboardActionView::Stop,
        ),
        ClipboardEventView::Request { request: ClipboardRequest::Shutdown, done } => (
            WorkerView { phase: Phase::Stopped, ..worker },
            ClipboardActionView::Stop,
        ),
        ClipboardEventView::Request { request: ClipboardRequest::Warmup, done } => if worker.transfer
            is NotStarted {
            (
                WorkerView { phase: Phase::WarmingUp, ..worker },
                ClipboardActionView::StartTransfer,
            )
        } else {
            (idle, ClipboardActionView::Receive)
        },
        ClipboardEventView::Request { request: ClipboardRequest::Paste, done } => if done {
            (idle, ClipboardActionView::Receive)
        } else {
            (WorkerView { phase: Phase::Reading, ..worker }, ClipboardActionView::ReadClipboard)
        },
        ClipboardEventView::TransferStarted => {
            let transfer = TransferView::Ready;
            if worker.phase == Phase::StartingForImage {
                (
                    WorkerView { phase: Phase::Uploading, transfer },
                    ClipboardActionView::UploadImage,
                )
            } else {
                (WorkerView { phase: Phase::Idle, transfer }, ClipboardActionView::Receive)
            }
        },
        ClipboardEventView::TransferFailed(cause) => {
            let failed = WorkerView { phase: Phase::Idle, transfer: TransferView::Failed(cause) };
            if worker.phase == Phase::StartingForImage {
                (failed, ClipboardActionView::Notice(image_failed(cause)))
            } else {
                (failed, ClipboardActionView::Receive)
            }
        },
        ClipboardEventView::ReadText(text) => (idle, ClipboardActionView::Paste(text)),
        ClipboardEventView::ReadImage => match worker.transfer {
            TransferView::NotStarted => (
                WorkerView { phase: Phase::StartingForImage, ..worker },
                ClipboardActionView::StartTransfer,
            ),
            TransferView::Failed(cause) => (
                idle,
                ClipboardActionView::Notice(image_failed(cause)),
            ),
            TransferView::Ready => (
                WorkerView { phase: Phase::Uploading, ..worker },
                ClipboardActionView::UploadImage,
            ),
        },
        ClipboardEventView::ReadFailed(cause) => (
            idle,
            ClipboardActionView::Notice("paste failed: "@ + cause),
        ),
        ClipboardEventView::Uploaded { path } => (
            idle,
            ClipboardActionView::Paste(image_marker(path)),
        ),
        ClipboardEventView::UploadFailed(cause) => (
            idle,
            ClipboardActionView::Notice(image_failed(cause)),
        ),
    }
}

/// The clipboard worker. It reads the clipboard and uploads images beside the
/// session, so that keystrokes keep flowing.
#[derive(Debug)]
pub struct ClipboardWorker {
    pub phase: Phase,
    pub transfer: Transfer,
}

impl View for ClipboardWorker {
    type V = WorkerView;

    open spec fn view(&self) -> WorkerView {
        WorkerView { phase: self.phase, transfer: self.transfer@ }
    }
}

/// The worker before its first request.
pub open spec fn new_worker() -> WorkerView {
    WorkerView { phase: Phase::Idle, transfer: TransferView::NotStarted }
}

impl Default for ClipboardWorker {
    fn default() -> (r: Self)
        ensures
            r@ == new_worker(),
    {
        ClipboardWorker { phase: Phase::Idle, transfer: Transfer::NotStarted }
    }
}

fn image_notice(cause: &str) -> (r: ClipboardAction)
    ensures
        r@ == ClipboardActionView::Notice(image_failed(cause@)),
{
    ClipboardAction::Notice("image paste failed: ".to_owned().concat(cause))
}

impl ClipboardWorker {
    /// Takes one event and says what to do next.
    pub fn clipboard_loop(&mut self, event: ClipboardEvent) -> (r: ClipboardAction)
        requires
            event_fits(old(self)@.phase, event@),
        ensures
            (final(self)@, r@) == worker_step(old(self)@, event@),
    {
        match event {
            ClipboardEvent::Disconnected => {
                self.phase = Phase::Stopped;
                ClipboardAction::Stop
            },
            ClipboardEvent::Request { request, done } => match request {
                ClipboardRequest::Shutdown => {
                    self.phase = Phase::Stopped;
                    ClipboardAction::Stop
                },
                ClipboardRequest::Warmup => match self.transfer {
                    Transfer::NotStarted => {
                        self.phase = Phase::WarmingUp;
                        ClipboardAction::StartTransfer
                    },
                    _ => {
                        self.phase = Phase::Idle;
                        ClipboardAction::Receive
                    },
                },
                ClipboardRequest::Paste => {
                    if done {
                        self.phase = Phase::Idle;
                        ClipboardAction::Receive
                    } else {
                        self.phase = Phase::Reading;
                        ClipboardAction::ReadClipboard
                    }
                },
            },
            ClipboardEvent::TransferStarted if self.phase == Phase::WarmingUp => {
                self.phase = Phase::Idle;
                self.transfer = Transfer::Ready;
                ClipboardAction::Receive
            },
            ClipboardEvent::TransferFailed(cause) if self.phase == Phase::WarmingUp => {
                self.phase = Phase::Idle;
                self.transfer = Transfer::Failed(cause);
                ClipboardAction::Receive
            },
            event => self.paste_clipboard(event),
        }
    }

    /// Goes on with one paste: text is pasted, an image is uploaded by the one
    /// helper of the session and its marker pasted.
    pub fn paste_clipboard(&mut self, event: ClipboardEvent) -> (r: ClipboardAction)
        requires
            event_fits(old(self)@.phase, event@),
            old(self)@.phase == Phase::Reading || old(self)@.phase == Phase::StartingForImage
                || old(self)@.phase == Phase::Uploading,
        ensures
            (final(self)@, r@) == worker_step(old(self)@, event@),
    {
        match event {
            ClipboardEvent::ReadText(text) => {
                self.phase = Phase::Idle;
                ClipboardAction::Paste(text)
            },
            ClipboardEvent::ReadImage => match &self.transfer {
                Transfer::NotStarted => {
                    self.phase = Phase::StartingForImage;
                    ClipboardAction::StartTransfer
                },
                Transfer::Failed(cause) => {
                    let notice = image_notice(cause.as_str());
                    self.phase = Phase::Idle;
                    notice
                },
                Transfer::Ready => {
                    self.phase = Phase::Uploading;
                    ClipboardAction::UploadImage
                },
            },
            ClipboardEvent::ReadFailed(cause) => {
                self.phase = Phase::Idle;
                ClipboardAction::Notice("paste failed: ".to_owned().concat(cause.as_str()))
            },
            ClipboardEvent::TransferStarted => {
                self.phase = Phase::Uploading;
                self.transfer = Transfer::Ready;
                ClipboardAction::UploadImage
            },
            ClipboardEvent::TransferFailed(cause) => {
                let notice = image_notice(cause.as_str());
                self.phase = Phase::Idle;
                self.transfer = Transfer::Failed(cause);
                notice
            },
            ClipboardEvent::Uploaded { path } => {
                self.phase = Phase::Idle;
                ClipboardAction::Paste("[image: ".to_owned().concat(path.as_str()).concat("]"))
            },
            ClipboardEvent::UploadFailed(cause) => {
                self.phase = Phase::Idle;
                image_notice(cause.as_str())
            },
            _ => ClipboardAction::Receive,
        }
    }
}

/// The worker after all `events`, from its first request on.
pub open spec fn worker_after(events: Seq<ClipboardEventView>) -> WorkerView
    decreases events.len(),
{
    if events.len() == 0 {
        new_worker()
    } else {
        worker_step(worker_after(events.drop_last()), events.last()).0
    }
}

/// Each of the events can come when it comes.
pub open spec fn events_fit(events: Seq<ClipboardEventView>) -> bool
    decreases events.len(),
{
    events.len() > 0 ==> {
        &&& events_fit(events.drop_last())
        &&& event_fits(worker_after(events.drop_last()).phase, events.last())
    }
}

/// What the worker does on the event with index `i`.
pub open spec fn action_at(events: Seq<ClipboardEventView>, i: int) -> ClipboardActionView {
    worker_step(worker_after(events.take(i)), events[i]).1
}

/// The helper is starting, or what became of it is known.
spec fn helper_asked_for(worker: WorkerView) -> bool {
    worker.transfer !is NotStarted || worker.phase == Phase::WarmingUp || worker.phase
        == Phase::StartingForImage
}

proof fn lemma_step_remembers(worker: WorkerView, event: ClipboardEventView)
    requires
        event_fits(worker.phase, event),
    ensures
        helper_asked_for(worker) ==> {
            &&& helper_asked_for(worker_step(worker, event).0)
            &&& worker_step(worker, event).1 !is StartTransfer
        },
        worker_step(worker, event).1 is StartTransfer ==> helper_asked_for(
            worker_step(worker, event).0,
        ),
{
}

proof fn lemma_start_is_remembered(events: Seq<ClipboardEventView>, i: int)
    requires
        events_fit(events),
        0 <= i < events.len(),
        action_at(events, i) is StartTransfer,
    ensures
        helper_asked_for(worker_after(events)),
    decreases events.len(),
{
    let before = events.drop_last();
    lemma_step_remembers(worker_after(before), events.last());
    if i < before.len() {
        assert(before.take(i) =~= events.take(i));
        lemma_start_is_remembered(before, i);
    } else {
        assert(events.take(i) =~= before);
    }
}

/// A session starts at most one helper, whether it comes up or not: every image
/// goes through that one.
pub proof fn law_one_transfer_per_session(events: Seq<ClipboardEventView>, i: int, j: int)
    requires
        events_fit(events),
        0 <= i < j < events.len(),
        action_at(events, i) is StartTransfer,
    ensures
        action_at(events, j) !is StartTransfer,
    decreases events.len(),
{
    let before = events.drop_last();
    assert(before.take(i) =~= events.take(i));
    if j < before.len() {
        assert(before.take(j) =~= events.take(j));
        law_one_transfer_per_session(before, i, j);
    } else {
        assert(events.take(j) =~= before);
        lemma_start_is_remembered(before, i);
        lemma_step_remembers(worker_after(before), events.last());
    }
}

/// An image is uploaded only by a helper that is ready.
pub proof fn law_uploads_need_a_ready_transfer(worker: WorkerView, event: ClipboardEventView)
    requires
        event_fits(worker.phase, event),
    ensures
        worker_step(worker, event).1 is UploadImage ==> worker_step(worker, event).0.transfer
            is Ready,
{
}

/// Text pastes as text: a request to paste reads the clipboard, and its text is
/// pasted as it is.
pub proof fn law_text_pastes_as_text(worker: WorkerView, text: Seq<char>)
    requires
        worker.phase == Phase::Idle,
    ensures
        ({
            let request = ClipboardEventView::Request {
                request: ClipboardRequest::Paste,
                done: false,
            };
            let (reading, read) = worker_step(worker, request);
            let (after, paste) = worker_step(reading, ClipboardEventView::ReadText(text));
            &&& read is ReadClipboard
            &&& paste == ClipboardActionView::Paste(text)
            &&& after == worker
        }),
{
}

/// An image pastes as its path in the sandbox: it is uploaded by the session's
/// helper, which is started for it where there is none, and the marker with the
/// path is pasted.
pub proof fn law_image_pastes_as_its_path(worker: WorkerView, path: Seq<char>)
    requires
        worker.phase == Phase::Idle,
        worker.transfer !is Failed,
    ensures
        ({
            let request = ClipboardEventView::Request {
                request: ClipboardRequest::Paste,
                done: false,
            };
            let (reading, read) = worker_step(worker, request);
            let (found, action) = worker_step(reading, ClipboardEventView::ReadImage);
            let (uploading, upload) = if worker.transfer is NotStarted {
                worker_step(found, ClipboardEventView::TransferStarted)
            } else {
                (found, action)
            };
            let (after, paste) = worker_step(uploading, ClipboardEventView::Uploaded { path });
            &&& read is ReadClipboard
            &&& worker.transfer is NotStarted <==> action is StartTransfer
            &&& upload is UploadImage
            &&& paste == ClipboardActionView::Paste("[image: "@ + path + "]"@)
            &&& after == (WorkerView { phase: Phase::Idle, transfer: TransferView::Ready })
        }),
{
}

/// Once the session has ended, a request to paste does nothing.
pub proof fn law_no_paste_after_the_end(worker: WorkerView)
    requires
        worker.phase == Phase::Idle,
    ensures
        worker_step(
            worker,
            ClipboardEventView::Request { request: ClipboardRequest::Paste, done: true },
        ) == (worker, ClipboardActionView::Receive),
{
}

/// A paste is all of the bytes, unchanged and in order. Without bracketed paste it
/// is nothing else; with it, `ESC [ 2 0 0 ~` stands before them and
/// `ESC [ 2 0 1 ~` behind.
pub proof fn law_paste_keeps_every_byte(bytes: Seq<u8>)
    ensures
        pasted(bytes, false) == bytes,
        pasted(bytes, true).len() == bytes.len() + 12,
        pasted(bytes, true).subrange(6, (6 + bytes.len()) as int) == bytes,
        pasted(bytes, true).take(6) == seq![0x1bu8, 0x5b, 0x32, 0x30, 0x30, 0x7e],
        pasted(bytes, true).skip((6 + bytes.len()) as int) == seq![0x1bu8, 0x5b, 0x32, 0x30, 0x31, 0x7e],
{
    let all = pasted(bytes, true);
    assert(all.subrange(6, (6 + bytes.len()) as int) =~= bytes);
    assert(all.take(6) =~= seq![0x1bu8, 0x5b, 0x32, 0x30, 0x30, 0x7e]);
    assert(all.skip((6 + bytes.len()) as int) =~= seq![0x1bu8, 0x5b, 0x32, 0x30, 0x31, 0x7e]);
}

/// A notice is the whole message, on lines of its own and with the program's name
/// before it.
pub proof fn law_notices_keep_their_message(message: Seq<char>)
    ensures
        notice_text(message).len() == message.len() + 9,
        notice_text(message).subrange(7, (7 + message.len()) as int) == message,
        notice_text(message).take(7) == seq!['\r', '\n', 's', 'b', 'c', ':', ' '],
        notice_text(message).skip((7 + message.len()) as int) == seq!['\r', '\n'],
{
    reveal_strlit("\r\nsbc: ");
    reveal_strlit("\r\n");
    let all = notice_text(message);
    assert(all.subrange(7, (7 + message.len()) as int) =~= message);
    assert(all.take(7) =~= seq!['\r', '\n', 's', 'b', 'c', ':', ' ']);
    assert(all.skip((7 + message.len()) as int) =~= seq!['\r', '\n']);
}

/// What goes wrong with a paste is told, all of it, and the worker waits for the
/// next request. A helper that did not start is remembered with its cause: every
/// later image is told of that. On a warmup it is not told at once.
pub proof fn law_failures_are_told(worker: WorkerView, cause: Seq<char>)
    requires
        worker.phase == Phase::Reading || worker.phase == Phase::StartingForImage || worker.phase
            == Phase::Uploading || worker.phase == Phase::WarmingUp,
    ensures
        ({
            let idle = WorkerView { phase: Phase::Idle, ..worker };
            let told = ClipboardActionView::Notice("image paste failed: "@ + cause);
            let failed = WorkerView { phase: Phase::Idle, transfer: TransferView::Failed(cause) };
            &&& worker.phase == Phase::Reading ==> worker_step(
                worker,
                ClipboardEventView::ReadFailed(cause),
            ) == (idle, ClipboardActionView::Notice("paste failed: "@ + cause))
            &&& worker.phase == Phase::Uploading ==> worker_step(
                worker,
                ClipboardEventView::UploadFailed(cause),
            ) == (idle, told)
            &&& worker.phase == Phase::StartingForImage ==> worker_step(
                worker,
                ClipboardEventView::TransferFailed(cause),
            ) == (failed, told)
            &&& worker.phase == Phase::WarmingUp ==> worker_step(
                worker,
                ClipboardEventView::TransferFailed(cause),
            ) == (failed, ClipboardActionView::Receive)
            &&& worker_step(
                WorkerView { phase: Phase::Reading, transfer: TransferView::Failed(cause) },
                ClipboardEventView::ReadImage,
            ) == (failed, told)
        }),
{
}

/// A warmup starts the helper where it was never asked for, and does nothing else;
/// a shutdown, or the end of the requests, stops the worker.
pub proof fn law_requests_are_obeyed(worker: WorkerView, done: bool)
    requires
        worker.phase == Phase::Idle,
    ensures
        ({
            let warmup = worker_step(
                worker,
                ClipboardEventView::Request { request: ClipboardRequest::Warmup, done },
            );
            let shutdown = worker_step(
                worker,
                ClipboardEventView::Request { request: ClipboardRequest::Shutdown, done },
            );
            let ready = WorkerView { phase: Phase::Idle, transfer: TransferView::Ready };
            &&& worker.transfer is NotStarted ==> warmup.1 is StartTransfer && worker_step(
                warmup.0,
                ClipboardEventView::TransferStarted,
            ) == (ready, ClipboardActionView::Receive)
            &&& worker.transfer !is NotStarted ==> warmup == (worker, ClipboardActionView::Receive)
            &&& shutdown.0.phase == Phase::Stopped && shutdown.1 is Stop
            &&& worker_step(worker, ClipboardEventView::Disconnected).0.phase == Phase::Stopped
            &&& worker_step(worker, ClipboardEventView::Disconnected).1 is Stop
            &&& new_worker() == (WorkerView {
                phase: Phase::Idle,
                transfer: TransferView::NotStarted,
            })
        }),
{
}

} // verus!
