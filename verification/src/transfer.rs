//! How clipboard images get into the sandbox: one helper process per session
//! receives them and removes them when it ends.

use vstd::prelude::*;
use vstd::string::*;
use vstd::utf8::*;

use crate::clipboard;
use crate::clipboard::TemporaryImage;
use crate::command;
use crate::command::{push_word, quote, SessionCommand, SessionCommandView};
use crate::error::{Error, Failure};
use crate::shell;
use crate::target::{Location, LocationView, Target, TargetView};
use crate::text;
use crate::text::{decimal, same_text, OsText};

pub mod receiver;

verus! {

/// The directory in the sandbox that all sessions share.
pub const SANDBOX_DIRECTORY: &'static str = "/tmp/sbc";

/// An image in the sandbox.
#[derive(Clone, Debug)]
pub struct Artifact {
    pub path: String,
}

/// The directory of one session: process and time in nanoseconds.
pub open spec fn directory_text(process: u32, timestamp: u128) -> Seq<char> {
    SANDBOX_DIRECTORY@ + "/"@ + text::decimal_text(process as nat) + "-"@ + text::decimal_text(
        timestamp as nat,
    )
}

pub fn session_directory(process: u32, timestamp: u128) -> (r: String)
    ensures
        r@ == directory_text(process, timestamp),
{
    let mut r = SANDBOX_DIRECTORY.to_owned();
    r.append("/");
    r.append(decimal(process as u128).as_str());
    r.append("-");
    r.append(decimal(timestamp).as_str());
    r
}

/// The helper's script before and after the name of its directory. It makes the
/// directory, says that it is ready, stores each image it is sent under a name
/// without special characters, and removes everything when it ends.
pub const SCRIPT_START: &'static str = "set -eu; directory=";

pub const SCRIPT_END: &'static str = "; mkdir -p \"$directory\"; cleanup() { for file in \"$directory\"/*; do [ ! -e \"$file\" ] || unlink \"$file\"; done; rmdir \"$directory\" 2>/dev/null || true; }; trap cleanup EXIT HUP INT TERM; printf 'ready\\n'; while IFS=' ' read -r action name size; do [ \"$action\" = put ] || exit 4; case \"$name\" in ''|*[!A-Za-z0-9._-]*) exit 5;; esac; head -c \"$size\" > \"$directory/$name\"; printf 'ok\\n'; done";

pub open spec fn script_text(directory: Seq<char>) -> Seq<char> {
    SCRIPT_START@ + command::quoted(directory) + SCRIPT_END@
}

/// The script of the helper that receives images into `directory`.
pub fn receiver_script(directory: &str) -> (r: String)
    ensures
        r@ == script_text(directory@),
{
    let word = quote(directory);
    SCRIPT_START.to_owned().concat(word.as_str()).concat(SCRIPT_END)
}

/// The words that run a script in the sandbox.
pub open spec fn helper_words(sandbox: Seq<char>, script: Seq<char>) -> Seq<Seq<char>> {
    seq!["exec"@, "-i"@, sandbox, "sh"@, "-c"@, script]
}

/// The operating system's form of all words.
pub open spec fn encoded(words: Seq<Seq<char>>) -> Seq<Seq<u8>> {
    words.map_values(|w: Seq<char>| encode_utf8(w))
}

/// The command that starts the helper.
pub open spec fn helper_command(target: TargetView, directory: Seq<char>) -> SessionCommandView {
    let words = helper_words(target.sandbox, script_text(directory));
    match target.location {
        LocationView::Local { sbx_command } => SessionCommandView {
            program: encode_utf8(sbx_command),
            args: encoded(words),
        },
        LocationView::Remote { ssh_host, sbx_command } => SessionCommandView {
            program: encode_utf8("ssh"@),
            args: encoded(
                seq![
                    "-o"@,
                    "BatchMode=yes"@,
                    ssh_host,
                    command::command_line(seq![sbx_command] + words),
                ],
            ),
        },
    }
}

/// The command line that runs `script` in a sandbox of a remote host.
fn remote_helper_line(sbx: &str, sandbox: &str, script: &str) -> (r: String)
    ensures
        r@ == command::command_line(seq![sbx@] + helper_words(sandbox@, script@)),
{
    let mut line = quote(sbx);
    let ghost w0 = seq![sbx@];
    push_word(&mut line, "exec", Ghost(w0));
    let ghost w1 = w0.push("exec"@);
    push_word(&mut line, "-i", Ghost(w1));
    let ghost w2 = w1.push("-i"@);
    push_word(&mut line, sandbox, Ghost(w2));
    let ghost w3 = w2.push(sandbox@);
    push_word(&mut line, "sh", Ghost(w3));
    let ghost w4 = w3.push("sh"@);
    push_word(&mut line, "-c", Ghost(w4));
    let ghost w5 = w4.push("-c"@);
    push_word(&mut line, script, Ghost(w5));
    assert(w5.push(script@) =~= seq![sbx@] + helper_words(sandbox@, script@));
    line
}

/// The command that starts a helper for `directory`.
fn helper_command_for(target: &Target, directory: &str) -> (r: SessionCommand)
    ensures
        r@ == helper_command(target@, directory@),
{
    let script = receiver_script(directory);
    let ghost expected = helper_command(target@, directory@);
    match &target.location {
        Location::Local { sbx_command } => {
            let args: Vec<OsText> = vec![
                OsText::from_text("exec"),
                OsText::from_text("-i"),
                OsText::from_text(target.sandbox.as_str()),
                OsText::from_text("sh"),
                OsText::from_text("-c"),
                OsText::from_text(script.as_str()),
            ];
            assert(text::os_texts(args@) =~= expected.args);
            SessionCommand { program: OsText::from_text(sbx_command.as_str()), args }
        },
        Location::Remote { ssh_host, sbx_command } => {
            let remote = remote_helper_line(
                sbx_command.as_str(),
                target.sandbox.as_str(),
                script.as_str(),
            );
            let args: Vec<OsText> = vec![
                OsText::from_text("-o"),
                OsText::from_text("BatchMode=yes"),
                OsText::from_text(ssh_host.as_str()),
                OsText::from_text(remote.as_str()),
            ];
            assert(text::os_texts(args@) =~= expected.args);
            SessionCommand { program: OsText::from_text("ssh"), args }
        },
    }
}

/// What became of the last step of starting the helper.
#[derive(Debug)]
pub enum HelperEvent {
    /// It did not start.
    NotStarted(String),
    /// It started; its input and output are or are not within reach.
    Started { input: bool, output: bool },
    /// Its first line could not be read.
    NotRead(String),
    /// It printed this first line, with its line end; nothing at its end.
    Greeted(String),
}

/// The next step.
#[derive(Debug)]
pub enum HelperStep {
    ReadGreeting,
    /// The helper is ready for images.
    Serve,
    /// Close its input, wait for its end and fail.
    Dismiss(Error),
    Fail(Error),
}

pub enum HelperStepView {
    ReadGreeting,
    Serve,
    Dismiss(Failure<Seq<char>>),
    Fail(Failure<Seq<char>>),
}

impl View for HelperStep {
    type V = HelperStepView;

    open spec fn view(&self) -> HelperStepView {
        match *self {
            HelperStep::ReadGreeting => HelperStepView::ReadGreeting,
            HelperStep::Serve => HelperStepView::Serve,
            HelperStep::Dismiss(error) => HelperStepView::Dismiss(error@),
            HelperStep::Fail(error) => HelperStepView::Fail(error@),
        }
    }
}

/// What to do after a step of starting the helper.
pub open spec fn helper_step(event: HelperEvent) -> HelperStepView {
    match event {
        HelperEvent::NotStarted(cause) => HelperStepView::Fail(Failure::TransferNotStarted(cause@)),
        HelperEvent::Started { input, output } => if !input {
            HelperStepView::Fail(Failure::TransferInputUnavailable)
        } else if !output {
            HelperStepView::Fail(Failure::TransferOutputUnavailable)
        } else {
            HelperStepView::ReadGreeting
        },
        HelperEvent::NotRead(cause) => HelperStepView::Fail(Failure::Reported(cause@)),
        HelperEvent::Greeted(line) => if line@ == "ready\n"@ {
            HelperStepView::Serve
        } else {
            HelperStepView::Dismiss(Failure::TransferNotReady)
        },
    }
}

/// The path of an image that the helper has answered for, or nothing where it did
/// not acknowledge it.
pub open spec fn acknowledged(
    directory: Seq<char>,
    name: Seq<char>,
    answer: Seq<char>,
) -> Option<Seq<char>> {
    if answer == "ok\n"@ {
        Some(artifact_text(directory, name))
    } else {
        None
    }
}

/// A session's helper.
#[derive(Debug)]
pub struct TransferSession {
    directory: String,
    open: bool,
}

impl TransferSession {
    /// The directory that the helper stores images in.
    pub closed spec fn directory_of(&self) -> Seq<char> {
        self.directory@
    }

    /// The helper is ready for images, and its input is not closed.
    pub closed spec fn is_open(&self) -> bool {
        self.open
    }

    /// A helper for `directory`, which is not ready yet, and the command that
    /// starts it: the script stores images in the directory that their paths
    /// are reported in.
    pub fn start(target: &Target, directory: String) -> (r: (SessionCommand, Self))
        ensures
            r.0@ == helper_command(target@, directory@),
            r.1.directory_of() == directory@,
            !r.1.is_open(),
    {
        let command = helper_command_for(target, directory.as_str());
        (command, TransferSession { directory, open: false })
    }

    /// Starts the helper: it is ready once it has said so.
    pub fn start_command(&mut self, event: HelperEvent) -> (r: HelperStep)
        ensures
            final(self).directory_of() == old(self).directory_of(),
            final(self).is_open() == (r is Serve),
            r@ == helper_step(event),
            match event {
                HelperEvent::NotStarted(cause) => r matches HelperStep::Fail(error) && error@
                    == Failure::TransferNotStarted(cause@),
                HelperEvent::Started { input, output } => if !input {
                    r matches HelperStep::Fail(error) && error@ is TransferInputUnavailable
                } else if !output {
                    r matches HelperStep::Fail(error) && error@ is TransferOutputUnavailable
                } else {
                    r is ReadGreeting
                },
                HelperEvent::NotRead(cause) => r matches HelperStep::Fail(error) && error@
                    == Failure::Reported(cause@),
                HelperEvent::Greeted(line) => if line@ == "ready\n"@ {
                    r is Serve
                } else {
                    r matches HelperStep::Dismiss(error) && error@ is TransferNotReady
                },
            },
    {
        self.open = false;
        match event {
            HelperEvent::NotStarted(cause) => HelperStep::Fail(Failure::TransferNotStarted(cause)),
            HelperEvent::Started { input, output } => if !input {
                HelperStep::Fail(Failure::TransferInputUnavailable)
            } else if !output {
                HelperStep::Fail(Failure::TransferOutputUnavailable)
            } else {
                HelperStep::ReadGreeting
            },
            HelperEvent::NotRead(cause) => HelperStep::Fail(Failure::Reported(cause)),
            HelperEvent::Greeted(line) => if same_text(line.as_str(), "ready\n") {
                self.open = true;
                HelperStep::Serve
            } else {
                HelperStep::Dismiss(Failure::TransferNotReady)
            },
        }
    }

    /// Closes the helper's input, which ends it.
    pub fn close(&mut self)
        ensures
            !final(self).is_open(),
            final(self).directory_of() == old(self).directory_of(),
    {
        self.open = false;
    }

    /// Begins the upload of `image`, a file of `size` bytes: the line that goes
    /// before its bytes.
    pub fn upload(&self, image: &TemporaryImage, size: u64) -> (r: Result<String, Error>)
        ensures
            r is Ok <==> self.is_open(),
            r matches Ok(line) ==> line@ == put_line(image.name_text(), size as nat),
            r matches Err(e) ==> e@ is TransferClosed,
    {
        if !self.open {
            return Err(Failure::TransferClosed);
        }
        Ok(
            "put ".to_owned().concat(image.name()).concat(" ").concat(
                decimal(size as u128).as_str(),
            ).concat("\n"),
        )
    }

    /// Ends the upload of `image` with the line that the helper answered, which
    /// is empty where it ended: the image is in the sandbox once the helper has
    /// acknowledged it.
    pub fn acknowledge(&self, image: &TemporaryImage, answer: &str) -> (r: Result<Artifact, Error>)
        ensures
            acknowledged(self.directory_of(), image.name_text(), answer@) == match r {
                Ok(artifact) => Some(artifact.path@),
                Err(error) => None,
            },
            r is Ok <==> answer@ == "ok\n"@,
            r matches Ok(artifact) ==> artifact.path@ == artifact_text(
                self.directory_of(),
                image.name_text(),
            ),
            r matches Err(e) ==> e@ is TransferNotAcknowledged,
    {
        if !same_text(answer, "ok\n") {
            return Err(Failure::TransferNotAcknowledged);
        }
        Ok(Artifact { path: self.directory.clone().concat("/").concat(image.name()) })
    }
}

/// The line that announces an image to the helper.
pub open spec fn put_line(name: Seq<char>, size: nat) -> Seq<char> {
    "put "@ + name + " "@ + text::decimal_text(size) + "\n"@
}

/// The path of an image in the sandbox.
pub open spec fn artifact_text(directory: Seq<char>, name: Seq<char>) -> Seq<char> {
    directory + "/"@ + name
}

/// The characters that the helper's script accepts in a name.
pub open spec fn is_stored_name_char(c: char) -> bool {
    text::is_ascii_alphanumeric_char(c) || c == '.' || c == '_' || c == '-'
}

/// The names that the helper's script stores an image under.
pub open spec fn is_stored_name(name: Seq<char>) -> bool {
    name.len() > 0 && forall|i: int|
        0 <= i < name.len() ==> is_stored_name_char(#[trigger] name[i])
}

/// Every temporary image has a name that the helper stores it under.
pub proof fn law_image_names_are_stored(process: u32, timestamp: u128, suffix: u8)
    ensures
        is_stored_name(clipboard::image_name_text(process, timestamp, suffix)),
{
    reveal_strlit("sbc-");
    reveal_strlit("-");
    reveal_strlit(".png");
    let p = text::decimal_text(process as nat);
    let t = text::decimal_text(timestamp as nat);
    let s = text::decimal_text(suffix as nat);
    text::lemma_decimal_digits(process as nat);
    text::lemma_decimal_digits(timestamp as nat);
    text::lemma_decimal_digits(suffix as nat);
    let a = "sbc-"@ + p;
    let b = a + "-"@;
    let c = b + t;
    let d = c + "-"@;
    let e = d + s;
    let name = e + ".png"@;
    assert forall|i: int| 0 <= i < name.len() implies is_stored_name_char(#[trigger] name[i]) by {
        if i < 4 {
            assert(name[i] == "sbc-"@[i]);
        } else if i < a.len() {
            assert(name[i] == p[i - 4]);
        } else if i < b.len() {
            assert(name[i] == '-');
        } else if i < c.len() {
            assert(name[i] == t[i - b.len()]);
        } else if i < d.len() {
            assert(name[i] == '-');
        } else if i < e.len() {
            assert(name[i] == s[i - d.len()]);
        } else {
            assert(name[i] == ".png"@[i - e.len()]);
        }
    }
}

/// The line that announces an image has three fields: neither the name nor the
/// size holds a space or a line end, by which the helper tells them apart.
pub proof fn law_put_line_has_three_fields(process: u32, timestamp: u128, suffix: u8, size: nat)
    ensures
        ({
            let name = clipboard::image_name_text(process, timestamp, suffix);
            let digits = text::decimal_text(size);
            &&& put_line(name, size) == "put "@ + name + " "@ + digits + "\n"@
            &&& forall|i: int|
                0 <= i < name.len() ==> #[trigger] name[i] != ' ' && name[i] != '\n'
            &&& forall|i: int|
                0 <= i < digits.len() ==> #[trigger] digits[i] != ' ' && digits[i] != '\n'
            &&& name.len() > 0 && digits.len() > 0
        }),
{
    law_image_names_are_stored(process, timestamp, suffix);
    text::lemma_decimal_digits(size);
    let name = clipboard::image_name_text(process, timestamp, suffix);
    assert forall|i: int| 0 <= i < name.len() implies #[trigger] name[i] != ' ' && name[i]
        != '\n' by {
        assert(is_stored_name_char(name[i]));
    }
}

/// The line that starts the helper on a remote host runs the sbx command with the
/// words that were meant: the whole script is one of them.
pub proof fn law_remote_helper_arrives(
    sbx: Seq<char>,
    sandbox: Seq<char>,
    directory: Seq<char>,
)
    requires
        shell::names_a_program(sbx),
    ensures
        shell::simple_command(
            command::command_line(seq![sbx] + helper_words(sandbox, script_text(directory))),
        ) == Some(seq![sbx] + helper_words(sandbox, script_text(directory))),
{
    shell::law_command_line_is_one_command(
        seq![sbx] + helper_words(sandbox, script_text(directory)),
    );
}

/// A session's directory is a plain word, so that the script names it as it is.
pub proof fn law_directory_is_plain(process: u32, timestamp: u128)
    ensures
        command::quoted(directory_text(process, timestamp)) == directory_text(process, timestamp),
{
    reveal_strlit("/tmp/sbc");
    reveal_strlit("/");
    reveal_strlit("-");
    let p = text::decimal_text(process as nat);
    let t = text::decimal_text(timestamp as nat);
    text::lemma_decimal_digits(process as nat);
    text::lemma_decimal_digits(timestamp as nat);
    let a = SANDBOX_DIRECTORY@ + "/"@;
    let b = a + p;
    let c = b + "-"@;
    let directory = c + t;
    assert forall|i: int| 0 <= i < directory.len() implies command::is_plain_char(
        #[trigger] directory[i],
    ) by {
        if i < 8 {
            assert(directory[i] == "/tmp/sbc"@[i]);
        } else if i < a.len() {
            assert(directory[i] == '/');
        } else if i < b.len() {
            assert(directory[i] == p[i - a.len()]);
        } else if i < c.len() {
            assert(directory[i] == '-');
        } else {
            assert(directory[i] == t[i - c.len()]);
        }
    }
}

/// Images stay in the sandbox's `/tmp/sbc`: a stored name holds no slash that
/// could lead out of the session's directory there.
pub proof fn law_artifacts_stay_in_tmp(
    process: u32,
    timestamp: u128,
    image_process: u32,
    image_timestamp: u128,
    suffix: u8,
)
    ensures
        ({
            let name = clipboard::image_name_text(image_process, image_timestamp, suffix);
            let path = artifact_text(directory_text(process, timestamp), name);
            &&& "/tmp/sbc/"@.is_prefix_of(path)
            &&& "/"@ + name == path.skip(directory_text(process, timestamp).len() as int)
            &&& forall|i: int| 0 <= i < name.len() ==> #[trigger] name[i] != '/'
        }),
{
    reveal_strlit("/tmp/sbc");
    reveal_strlit("/tmp/sbc/");
    reveal_strlit("/");
    let name = clipboard::image_name_text(image_process, image_timestamp, suffix);
    let directory = directory_text(process, timestamp);
    let path = artifact_text(directory, name);
    law_image_names_are_stored(image_process, image_timestamp, suffix);
    assert forall|i: int| 0 <= i < name.len() implies #[trigger] name[i] != '/' by {
        assert(is_stored_name_char(name[i]));
    }
    assert("/"@ + name =~= path.skip(directory.len() as int));
    assert(path.len() >= 9);
    assert(path.subrange(0, 9) =~= "/tmp/sbc/"@);
}

/// The helper is served if and only if its first line is `ready` and a line end;
/// any other greeting dismisses it, and what kept it from starting is told.
pub proof fn law_helper_has_to_greet(line: String, cause: String, input: bool, output: bool)
    ensures
        helper_step(HelperEvent::Greeted(line)) is Serve <==> line@ == seq![
            'r',
            'e',
            'a',
            'd',
            'y',
            '\n',
        ],
        helper_step(HelperEvent::Greeted(line)) !is Serve ==> helper_step(
            HelperEvent::Greeted(line),
        ) == HelperStepView::Dismiss(Failure::TransferNotReady),
        helper_step(HelperEvent::Started { input, output }) is ReadGreeting <==> input && output,
        !input ==> helper_step(HelperEvent::Started { input, output }) == HelperStepView::Fail(
            Failure::TransferInputUnavailable,
        ),
        input && !output ==> helper_step(HelperEvent::Started { input, output })
            == HelperStepView::Fail(Failure::TransferOutputUnavailable),
        helper_step(HelperEvent::NotStarted(cause)) == HelperStepView::Fail(
            Failure::TransferNotStarted(cause@),
        ),
        helper_step(HelperEvent::NotRead(cause)) == HelperStepView::Fail(
            Failure::Reported(cause@),
        ),
{
    reveal_strlit("ready\n");
    assert("ready\n"@ =~= seq!['r', 'e', 'a', 'd', 'y', '\n']);
}

/// An image counts as stored if and only if the answer is `ok` and a line end. Its
/// path is then the directory, a slash and its name.
pub proof fn law_uploads_are_acknowledged(
    directory: Seq<char>,
    name: Seq<char>,
    answer: Seq<char>,
)
    ensures
        acknowledged(directory, name, answer) is Some <==> answer == seq!['o', 'k', '\n'],
        answer == seq!['o', 'k', '\n'] ==> acknowledged(directory, name, answer) == Some(
            directory + seq!['/'] + name,
        ),
{
    reveal_strlit("ok\n");
    reveal_strlit("/");
    assert("ok\n"@ =~= seq!['o', 'k', '\n']);
    assert("/"@ =~= seq!['/']);
}

/// The helper runs in the sandbox that the session is in: on this machine as
/// `sbx exec -i SANDBOX sh -c SCRIPT`, and on a remote host by `ssh`, which asks for
/// no password, with that as its command line.
pub proof fn law_helper_runs_in_the_sandbox(
    sbx: Seq<char>,
    ssh_host: Seq<char>,
    sandbox: Seq<char>,
    directory: Seq<char>,
)
    ensures
        ({
            let script = script_text(directory);
            let local = helper_command(
                TargetView { sandbox, location: LocationView::Local { sbx_command: sbx } },
                directory,
            );
            let remote = helper_command(
                TargetView {
                    sandbox,
                    location: LocationView::Remote { ssh_host, sbx_command: sbx },
                },
                directory,
            );
            &&& local.program == encode_utf8(sbx)
            &&& local.args == seq![
                encode_utf8("exec"@),
                encode_utf8("-i"@),
                encode_utf8(sandbox),
                encode_utf8("sh"@),
                encode_utf8("-c"@),
                encode_utf8(script),
            ]
            &&& remote.program == encode_utf8("ssh"@)
            &&& remote.args == seq![
                encode_utf8("-o"@),
                encode_utf8("BatchMode=yes"@),
                encode_utf8(ssh_host),
                encode_utf8(
                    command::command_line(
                        seq![sbx, "exec"@, "-i"@, sandbox, "sh"@, "-c"@, script],
                    ),
                ),
            ]
        }),
{
    let script = script_text(directory);
    let words = helper_words(sandbox, script);
    assert(encoded(words) =~= seq![
        encode_utf8("exec"@),
        encode_utf8("-i"@),
        encode_utf8(sandbox),
        encode_utf8("sh"@),
        encode_utf8("-c"@),
        encode_utf8(script),
    ]);
    assert(seq![sbx] + words =~= seq![sbx, "exec"@, "-i"@, sandbox, "sh"@, "-c"@, script]);
    let remote = seq![
        "-o"@,
        "BatchMode=yes"@,
        ssh_host,
        command::command_line(seq![sbx] + words),
    ];
    assert(encoded(remote) =~= seq![
        encode_utf8("-o"@),
        encode_utf8("BatchMode=yes"@),
        encode_utf8(ssh_host),
        encode_utf8(command::command_line(seq![sbx] + words)),
    ]);
}

/// The script is the same for all directories but for their names, which stand
/// quoted behind `directory=`.
pub proof fn law_script_names_its_directory(directory: Seq<char>, other: Seq<char>)
    ensures
        ({
            let start = "set -eu; directory="@;
            let script = script_text(directory);
            let front = start + command::quoted(directory);
            let other_front = start + command::quoted(other);
            &&& front.is_prefix_of(script)
            &&& script.skip(front.len() as int) == script_text(other).skip(
                other_front.len() as int,
            )
            &&& script.len() > front.len()
        }),
{
    reveal_strlit(
        "; mkdir -p \"$directory\"; cleanup() { for file in \"$directory\"/*; do [ ! -e \"$file\" ] || unlink \"$file\"; done; rmdir \"$directory\" 2>/dev/null || true; }; trap cleanup EXIT HUP INT TERM; printf 'ready\\n'; while IFS=' ' read -r action name size; do [ \"$action\" = put ] || exit 4; case \"$name\" in ''|*[!A-Za-z0-9._-]*) exit 5;; esac; head -c \"$size\" > \"$directory/$name\"; printf 'ok\\n'; done",
    );
    let start = "set -eu; directory="@;
    let front = start + command::quoted(directory);
    let other_front = start + command::quoted(other);
    assert(script_text(directory).subrange(0, front.len() as int) =~= front);
    assert(script_text(directory).skip(front.len() as int) =~= SCRIPT_END@);
    assert(script_text(other).skip(other_front.len() as int) =~= SCRIPT_END@);
}

/// Two sessions share a directory only where process and time are the same.
pub proof fn law_directories_are_unique(
    process: u32,
    timestamp: u128,
    other_process: u32,
    other_timestamp: u128,
)
    requires
        directory_text(process, timestamp) == directory_text(other_process, other_timestamp),
    ensures
        process == other_process && timestamp == other_timestamp,
        "/tmp/sbc/"@.is_prefix_of(directory_text(process, timestamp)),
{
    reveal_strlit("/tmp/sbc");
    reveal_strlit("/tmp/sbc/");
    reveal_strlit("/");
    reveal_strlit("-");
    assert("-"@ =~= seq!['-']);
    let one = directory_text(process, timestamp);
    let two = directory_text(other_process, other_timestamp);
    let p1 = text::decimal_text(process as nat);
    let t1 = text::decimal_text(timestamp as nat);
    let p2 = text::decimal_text(other_process as nat);
    let t2 = text::decimal_text(other_timestamp as nat);
    text::lemma_decimal_digits(process as nat);
    text::lemma_decimal_digits(other_process as nat);
    assert(one.skip(9) =~= p1 + seq!['-'] + t1);
    assert(two.skip(9) =~= p2 + seq!['-'] + t2);
    clipboard::lemma_digits_before_hyphen(p1, p2, t1, t2);
    text::lemma_decimal_is_unique(process as nat, other_process as nat);
    text::lemma_decimal_is_unique(timestamp as nat, other_timestamp as nat);
    assert(one.subrange(0, 9) =~= "/tmp/sbc/"@);
}

} // verus!
