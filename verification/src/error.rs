//! Everything that can go wrong, and how it is told.

use vstd::prelude::*;
use vstd::string::*;

use crate::text;
use crate::text::debug_quoted;

verus! {

/// A failure; `T` is the type of its texts.
#[derive(Debug)]
pub enum Failure<T> {
    InvalidHostName(T),
    InvalidSandboxName(T),
    LocalWithHost,
    HostWithHost,
    RemoteArgumentNotUtf8,
    ConfigDirectoryUnknown,
    ConfigPathWithoutParent(T),
    ConfigUnparsable { path: T, cause: T },
    ConfigUnreadable { path: T, cause: T },
    NotATerminal,
    SessionEnded(T),
    InputRelayStopped,
    ClipboardUnavailable(T),
    ClipboardEmpty(T),
    ImageTooLarge,
    ImageNotEncoded(T),
    WindowsClipboardUnreadable(T),
    WindowsClipboardEmpty,
    ClipboardTextNotUtf8(T),
    NoTemporaryImage,
    TransferNotStarted(T),
    TransferInputUnavailable,
    TransferOutputUnavailable,
    TransferNotReady,
    TransferClosed,
    TransferNotAcknowledged,
    /// What the operating system or a program reported, passed on as it is.
    Reported(T),
}

pub type Error = Failure<String>;

impl View for Failure<String> {
    type V = Failure<Seq<char>>;

    open spec fn view(&self) -> Failure<Seq<char>> {
        match *self {
            Failure::InvalidHostName(s) => Failure::InvalidHostName(s@),
            Failure::InvalidSandboxName(s) => Failure::InvalidSandboxName(s@),
            Failure::LocalWithHost => Failure::LocalWithHost,
            Failure::HostWithHost => Failure::HostWithHost,
            Failure::RemoteArgumentNotUtf8 => Failure::RemoteArgumentNotUtf8,
            Failure::ConfigDirectoryUnknown => Failure::ConfigDirectoryUnknown,
            Failure::ConfigPathWithoutParent(s) => Failure::ConfigPathWithoutParent(s@),
            Failure::ConfigUnparsable { path, cause } => Failure::ConfigUnparsable {
                path: path@,
                cause: cause@,
            },
            Failure::ConfigUnreadable { path, cause } => Failure::ConfigUnreadable {
                path: path@,
                cause: cause@,
            },
            Failure::NotATerminal => Failure::NotATerminal,
            Failure::SessionEnded(s) => Failure::SessionEnded(s@),
            Failure::InputRelayStopped => Failure::InputRelayStopped,
            Failure::ClipboardUnavailable(s) => Failure::ClipboardUnavailable(s@),
            Failure::ClipboardEmpty(s) => Failure::ClipboardEmpty(s@),
            Failure::ImageTooLarge => Failure::ImageTooLarge,
            Failure::ImageNotEncoded(s) => Failure::ImageNotEncoded(s@),
            Failure::WindowsClipboardUnreadable(s) => Failure::WindowsClipboardUnreadable(s@),
            Failure::WindowsClipboardEmpty => Failure::WindowsClipboardEmpty,
            Failure::ClipboardTextNotUtf8(s) => Failure::ClipboardTextNotUtf8(s@),
            Failure::NoTemporaryImage => Failure::NoTemporaryImage,
            Failure::TransferNotStarted(s) => Failure::TransferNotStarted(s@),
            Failure::TransferInputUnavailable => Failure::TransferInputUnavailable,
            Failure::TransferOutputUnavailable => Failure::TransferOutputUnavailable,
            Failure::TransferNotReady => Failure::TransferNotReady,
            Failure::TransferClosed => Failure::TransferClosed,
            Failure::TransferNotAcknowledged => Failure::TransferNotAcknowledged,
            Failure::Reported(s) => Failure::Reported(s@),
        }
    }
}

/// The message of a failure.
pub open spec fn failure_text(f: Failure<Seq<char>>) -> Seq<char> {
    match f {
        Failure::InvalidHostName(s) => "invalid SSH host name: "@ + text::debug_text(s),
        Failure::InvalidSandboxName(s) => "invalid sandbox name: "@ + text::debug_text(s),
        Failure::LocalWithHost => "--local cannot be combined with HOST/SANDBOX"@,
        Failure::HostWithHost => "--host cannot be combined with HOST/SANDBOX"@,
        Failure::RemoteArgumentNotUtf8 => "remote command arguments must be valid UTF-8"@,
        Failure::ConfigDirectoryUnknown => "could not determine the user configuration directory"@,
        Failure::ConfigPathWithoutParent(s) => "configuration path has no parent: "@ + s,
        Failure::ConfigUnparsable { path, cause } => "could not parse "@ + path + ": "@ + cause,
        Failure::ConfigUnreadable { path, cause } => "could not read "@ + path + ": "@ + cause,
        Failure::NotATerminal => "sbc requires an interactive terminal"@,
        Failure::SessionEnded(s) => "session "@ + s,
        Failure::InputRelayStopped => "input relay stopped"@,
        Failure::ClipboardUnavailable(s) => "clipboard unavailable: "@ + s,
        Failure::ClipboardEmpty(s) => "clipboard contains no text or image: "@ + s,
        Failure::ImageTooLarge => "out of range integral type conversion attempted"@,
        Failure::ImageNotEncoded(s) => s,
        Failure::WindowsClipboardUnreadable(s) => "could not read the Windows clipboard: "@ + s,
        Failure::WindowsClipboardEmpty => "Windows clipboard contains no text or image"@,
        Failure::ClipboardTextNotUtf8(s) => s,
        Failure::NoTemporaryImage => "could not allocate a temporary clipboard image"@,
        Failure::TransferNotStarted(s) => "could not start image transfer: "@ + s,
        Failure::TransferInputUnavailable => "image transfer stdin unavailable"@,
        Failure::TransferOutputUnavailable => "image transfer stdout unavailable"@,
        Failure::TransferNotReady => "image transfer helper did not become ready"@,
        Failure::TransferClosed => "image transfer helper is closed"@,
        Failure::TransferNotAcknowledged => "image transfer helper did not acknowledge upload"@,
        Failure::Reported(s) => s,
    }
}

/// `first` followed by `second`.
pub fn joined_text(first: &str, second: &str) -> (r: String)
    ensures
        r@ == first@ + second@,
{
    first.to_owned().concat(second)
}

impl Failure<String> {
    /// The message of this failure.
    pub fn message(&self) -> (r: String)
        ensures
            r@ == failure_text(self@),
    {
        match self {
            Failure::InvalidHostName(s) => joined_text(
                "invalid SSH host name: ",
                debug_quoted(s.as_str()).as_str(),
            ),
            Failure::InvalidSandboxName(s) => joined_text(
                "invalid sandbox name: ",
                debug_quoted(s.as_str()).as_str(),
            ),
            Failure::LocalWithHost => "--local cannot be combined with HOST/SANDBOX".to_owned(),
            Failure::HostWithHost => "--host cannot be combined with HOST/SANDBOX".to_owned(),
            Failure::RemoteArgumentNotUtf8 => "remote command arguments must be valid UTF-8".to_owned(),
            Failure::ConfigDirectoryUnknown => "could not determine the user configuration directory".to_owned(),
            Failure::ConfigPathWithoutParent(s) => joined_text(
                "configuration path has no parent: ",
                s.as_str(),
            ),
            Failure::ConfigUnparsable { path, cause } => joined_text(
                "could not parse ",
                path.as_str(),
            ).concat(": ").concat(cause.as_str()),
            Failure::ConfigUnreadable { path, cause } => joined_text(
                "could not read ",
                path.as_str(),
            ).concat(": ").concat(cause.as_str()),
            Failure::NotATerminal => "sbc requires an interactive terminal".to_owned(),
            Failure::SessionEnded(s) => joined_text("session ", s.as_str()),
            Failure::InputRelayStopped => "input relay stopped".to_owned(),
            Failure::ClipboardUnavailable(s) => joined_text("clipboard unavailable: ", s.as_str()),
            Failure::ClipboardEmpty(s) => joined_text(
                "clipboard contains no text or image: ",
                s.as_str(),
            ),
            Failure::ImageTooLarge => "out of range integral type conversion attempted".to_owned(),
            Failure::ImageNotEncoded(s) => s.clone(),
            Failure::WindowsClipboardUnreadable(s) => joined_text(
                "could not read the Windows clipboard: ",
                s.as_str(),
            ),
            Failure::WindowsClipboardEmpty => "Windows clipboard contains no text or image".to_owned(),
            Failure::ClipboardTextNotUtf8(s) => s.clone(),
            Failure::NoTemporaryImage => "could not allocate a temporary clipboard image".to_owned(),
            Failure::TransferNotStarted(s) => joined_text(
                "could not start image transfer: ",
                s.as_str(),
            ),
            Failure::TransferInputUnavailable => "image transfer stdin unavailable".to_owned(),
            Failure::TransferOutputUnavailable => "image transfer stdout unavailable".to_owned(),
            Failure::TransferNotReady => "image transfer helper did not become ready".to_owned(),
            Failure::TransferClosed => "image transfer helper is closed".to_owned(),
            Failure::TransferNotAcknowledged => "image transfer helper did not acknowledge upload".to_owned(),
            Failure::Reported(s) => s.clone(),
        }
    }
}

/// Each message tells its failure in fixed words, with all of the cause and the
/// path where there is one.
pub proof fn law_messages_tell_their_cause(s: Seq<char>, path: Seq<char>)
    ensures
        failure_text(Failure::InvalidHostName(s)) == "invalid SSH host name: "@ + text::debug_text(
            s,
        ),
        failure_text(Failure::InvalidSandboxName(s)) == "invalid sandbox name: "@
            + text::debug_text(s),
        failure_text(Failure::LocalWithHost) == "--local cannot be combined with HOST/SANDBOX"@,
        failure_text(Failure::HostWithHost) == "--host cannot be combined with HOST/SANDBOX"@,
        failure_text(Failure::RemoteArgumentNotUtf8)
            == "remote command arguments must be valid UTF-8"@,
        failure_text(Failure::ConfigDirectoryUnknown)
            == "could not determine the user configuration directory"@,
        failure_text(Failure::ConfigPathWithoutParent(s)) == "configuration path has no parent: "@
            + s,
        failure_text(Failure::ConfigUnparsable { path, cause: s }) == "could not parse "@ + path
            + ": "@ + s,
        failure_text(Failure::ConfigUnreadable { path, cause: s }) == "could not read "@ + path
            + ": "@ + s,
        failure_text(Failure::NotATerminal) == "sbc requires an interactive terminal"@,
        failure_text(Failure::SessionEnded(s)) == "session "@ + s,
        failure_text(Failure::InputRelayStopped) == "input relay stopped"@,
        failure_text(Failure::ClipboardUnavailable(s)) == "clipboard unavailable: "@ + s,
        failure_text(Failure::ClipboardEmpty(s)) == "clipboard contains no text or image: "@ + s,
        failure_text(Failure::ImageNotEncoded(s)) == s,
        failure_text(Failure::WindowsClipboardUnreadable(s))
            == "could not read the Windows clipboard: "@ + s,
        failure_text(Failure::WindowsClipboardEmpty)
            == "Windows clipboard contains no text or image"@,
        failure_text(Failure::ClipboardTextNotUtf8(s)) == s,
        failure_text(Failure::NoTemporaryImage)
            == "could not allocate a temporary clipboard image"@,
        failure_text(Failure::TransferNotStarted(s)) == "could not start image transfer: "@ + s,
        failure_text(Failure::TransferInputUnavailable) == "image transfer stdin unavailable"@,
        failure_text(Failure::TransferOutputUnavailable) == "image transfer stdout unavailable"@,
        failure_text(Failure::TransferNotReady) == "image transfer helper did not become ready"@,
        failure_text(Failure::TransferClosed) == "image transfer helper is closed"@,
        failure_text(Failure::TransferNotAcknowledged)
            == "image transfer helper did not acknowledge upload"@,
        failure_text(Failure::Reported(s)) == s,
{
}

} // verus!
