//! What a caller gets: laws of the library told by the arguments and the results
//! of its functions.

use vstd::prelude::*;
use vstd::utf8::*;

use crate::cli;
use crate::cli::{
    CommandLine, ConfigAction, ConfigActionView, ConfigArgs, ConnectArgs, Invocation,
};
use crate::clipboard;
use crate::clipboard::{
    ClipboardAccess, Creation, CreationStep, CreationStepView, ImageData, NativeEvent, NativeStep,
    NativeStepView, TemporaryImage, WindowsEvent, WindowsStep, WindowsStepView,
};
use crate::command;
use crate::command::SessionCommand;
use crate::config;
use crate::config::save;
use crate::config::save::{SaveAction, SaveActionView, SaveEvent, SaveEventView, SaveStage};
use crate::config::{
    Config, ConfigEvent, ConfigEventView, ConfigSource, ConfigStage, ConfigStageView, ConfigStep,
    ConfigStepView, HostConfig,
};
use crate::error;
use crate::error::{Error, Failure};
use crate::program;
use crate::program::{Action, ActionView, Event, EventView, Stage};
use crate::session;
use crate::session::escape;
use crate::session::input;
use crate::session::input::{
    InputAction, InputActionView, InputEvent, InputEventView, InputLoop,
};
use crate::session::keys;
use crate::session::keys::ShortcutSequence;
use crate::session::modes;
use crate::session::modes::TerminalModes;
use crate::session::output;
use crate::session::output::{
    OutputAction, OutputActionView, OutputEvent, OutputEventView, OutputLoop,
};
use crate::session::paste;
use crate::session::paste::{
    ClipboardAction, ClipboardActionView, ClipboardEvent, ClipboardEventView, ClipboardRequest,
    ClipboardWorker,
};
use crate::session::relay;
use crate::session::relay::InputRelay;
use crate::session::{
    SessionAction, SessionActionView, SessionEvent, SessionEventView, SessionStage,
};
use crate::shell;
use crate::target;
use crate::target::{Location, Target};
use crate::text;
use crate::text::OsText;
use crate::transfer;
use crate::transfer::{Artifact, HelperEvent, HelperStep, HelperStepView, TransferSession};

verus! {

/// `forward` writes behind what was written before, and what it writes is the
/// input kept so far and the new one, without the pastes and the replies; it
/// counts the pastes. With the clipboard disabled it writes all of both.
pub proof fn law_forward_relays(input: &[u8], pastes: usize)
    ensures
        forall|relay: &mut InputRelay, writer: &mut Vec<u8>| #[trigger]
            call_ensures(InputRelay::forward, (relay, writer, input, true), pastes) ==> {
                let relayed = relay::relay_of((*relay).held() + input@);
                &&& (*final(writer))@ == (*writer)@ + relayed.output
                &&& pastes == relayed.pastes
                &&& (*final(relay)).held() == relayed.held
                &&& (*final(relay)).replied() == ((*relay).replied() || relayed.reply)
            },
        forall|relay: &mut InputRelay, writer: &mut Vec<u8>| #[trigger]
            call_ensures(InputRelay::forward, (relay, writer, input, false), pastes) ==> {
                &&& (*final(writer))@ == (*writer)@ + (*relay).held() + input@
                &&& pastes == 0
                &&& (*final(relay)).held().len() == 0
                &&& (*final(relay)).replied() == (*relay).replied()
            },
        forall|relay: InputRelay| #[trigger]
            call_ensures(InputRelay::default, (), relay) ==> relay.held().len() == 0
                && !relay.replied(),
        forall|relay: &mut InputRelay, reply: bool| #[trigger]
            call_ensures(InputRelay::take_terminal_response, (relay,), reply) ==> reply
                == (*relay).replied() && !(*final(relay)).replied() && (*final(relay)).held()
                == (*relay).held(),
{
}

/// Keys that terminals send as an escape byte and other bytes than `v`, `V`, `[`
/// and `]` reach the sandbox unchanged, and at once: application cursor keys,
/// function keys and Alt with any other key.
pub proof fn law_forward_keeps_other_keys(key: u8, later: Seq<u8>, input: &[u8], pastes: usize)
    requires
        key != 0x76 && key != 0x56 && key != 0x5b && key != 0x5d && key != 0x1b && key != 0x16,
        forall|i: int|
            0 <= i < later.len() ==> #[trigger] later[i] != 0x1b && later[i] != 0x16,
        input@ == seq![0x1bu8, key] + later,
    ensures
        forall|relay: &mut InputRelay, writer: &mut Vec<u8>| #[trigger]
            call_ensures(InputRelay::forward, (relay, writer, input, true), pastes)
                && (*relay).held().len() == 0 ==> {
                &&& (*final(writer))@ == (*writer)@ + input@
                &&& pastes == 0
                &&& (*final(relay)).held().len() == 0
            },
{
    lemma_plain_relayed(later);
    session::protocol_laws::law_other_bytes_are_forwarded(key, later);
    session::protocol_laws::law_other_escapes_are_forwarded(key, later);
    assert(relay::relay_of(input@).output =~= input@);
    assert forall|relay: &mut InputRelay, writer: &mut Vec<u8>| #[trigger]
        call_ensures(InputRelay::forward, (relay, writer, input, true), pastes)
            && (*relay).held().len() == 0 implies {
        &&& (*final(writer))@ == (*writer)@ + input@
        &&& pastes == 0
        &&& (*final(relay)).held().len() == 0
    } by {
        assert((*relay).held() + input@ =~= input@);
    }
}

proof fn lemma_plain_relayed(s: Seq<u8>)
    requires
        forall|i: int| 0 <= i < s.len() ==> #[trigger] s[i] != 0x1b && s[i] != 0x16,
    ensures
        relay::relay_of(s).output == s,
        relay::relay_of(s).pastes == 0,
        relay::relay_of(s).held == Seq::<u8>::empty(),
    decreases s.len(),
{
    if s.len() > 0 {
        let rest = s.skip(1);
        assert forall|i: int| 0 <= i < rest.len() implies #[trigger] rest[i] != 0x1b && rest[i]
            != 0x16 by {
            assert(rest[i] == s[i + 1]);
        }
        lemma_plain_relayed(rest);
        assert(s =~= seq![s[0]] + rest);
        session::protocol_laws::law_other_bytes_are_forwarded(s[0], rest);
    }
}

/// `quote` leaves a word as it is if and only if it holds nothing but ASCII
/// letters, digits and `_@%+=:,./-`, and at least one of them; any other word it
/// puts between apostrophes. A shell reads the result as exactly that word.
pub proof fn law_quote_keeps_the_word(value: &str, result: String)
    requires
        call_ensures(command::quote, (value,), result),
    ensures
        ({
            let bare = value@.len() > 0 && forall|i: int|
                0 <= i < value@.len() ==> {
                    ||| 'a' <= (#[trigger] value@[i]) <= 'z'
                    ||| 'A' <= value@[i] <= 'Z'
                    ||| '0' <= value@[i] <= '9'
                    ||| seq!['_', '@', '%', '+', '=', ':', ',', '.', '/', '-'].contains(value@[i])
                };
            &&& bare ==> result@ == value@
            &&& !bare ==> result@.len() >= value@.len() + 2 && result@[0] == '\''
                && result@.last() == '\''
            &&& shell::shell_words(result@) == Some(seq![value@])
        }),
{
    command::law_quoting_adds_apostrophes(value@);
    shell::law_quoting_keeps_a_word(value@);
}

/// `write_paste_bytes` adds all of the bytes, unchanged and in order, and nothing
/// else without bracketed paste; with it, `ESC [ 2 0 0 ~` before them and
/// `ESC [ 2 0 1 ~` behind. `write_paste` gives the text's UTF-8 in the same way.
pub proof fn law_pastes_are_written_whole(bytes: &[u8], text: &str)
    ensures
        forall|writer: &mut Vec<u8>| #[trigger]
            call_ensures(paste::write_paste_bytes, (writer, bytes, false), ())
                ==> (*final(writer))@ == (*writer)@ + bytes@,
        forall|writer: &mut Vec<u8>| #[trigger]
            call_ensures(paste::write_paste_bytes, (writer, bytes, true), ())
                ==> (*final(writer))@ == (*writer)@ + (seq![0x1bu8, 0x5b, 0x32, 0x30, 0x30, 0x7e]
                + bytes@ + seq![0x1bu8, 0x5b, 0x32, 0x30, 0x31, 0x7e]),
        forall|r: Vec<u8>| #[trigger]
            call_ensures(paste::write_paste, (text, false), r) ==> r@ == encode_utf8(text@),
        forall|r: Vec<u8>| #[trigger]
            call_ensures(paste::write_paste, (text, true), r) ==> r@ == seq![
                0x1bu8,
                0x5b,
                0x32,
                0x30,
                0x30,
                0x7e,
            ] + encode_utf8(text@) + seq![0x1bu8, 0x5b, 0x32, 0x30, 0x31, 0x7e],
{
}

/// `terminal_notice` shows the whole message.
pub proof fn law_notice_shows_the_message(message: &str, r: String)
    requires
        call_ensures(paste::terminal_notice, (message,), r),
    ensures
        r@ == seq!['\r', '\n', 's', 'b', 'c', ':', ' '] + message@ + seq!['\r', '\n'],
{
    reveal_strlit("\r\nsbc: ");
    reveal_strlit("\r\n");
    assert("\r\nsbc: "@ =~= seq!['\r', '\n', 's', 'b', 'c', ':', ' ']);
    assert("\r\n"@ =~= seq!['\r', '\n']);
}

/// `parse_from` hands a line whose second word is `config` to the configuration
/// grammar, without that word and with all others in their order; every other line
/// goes to the connection grammar, as it is.
pub proof fn law_parse_from_chooses_the_grammar(args: Vec<OsText>, r: CommandLine)
    requires
        call_ensures(cli::parse_from, (args,), r),
    ensures
        args@.len() >= 2 && args@[1]@ == encode_utf8("config"@) ==> {
            &&& r is Config
            &&& r->Config_0@.len() == args@.len() - 1
            &&& r->Config_0@[0]@ == args@[0]@
            &&& forall|i: int|
                1 <= i < r->Config_0@.len() ==> (#[trigger] r->Config_0@[i])@ == args@[i + 1]@
        },
        args@.len() < 2 || args@[1]@ != encode_utf8("config"@) ==> {
            &&& r is Connect
            &&& r->Connect_0@.len() == args@.len()
            &&& forall|i: int|
                0 <= i < args@.len() ==> (#[trigger] r->Connect_0@[i])@ == args@[i]@
        },
{
    let words = text::os_texts(args@);
    assert(words.len() == args@.len());
    match r {
        CommandLine::Config(rest) => {
            let parsed = text::os_texts(rest@);
            assert(words[1] == args@[1]@);
            assert(parsed =~= seq![words[0]] + words.skip(2));
            assert(parsed.len() == rest@.len());
            assert(parsed[0] == rest@[0]@);
            assert forall|i: int| 1 <= i < rest@.len() implies (#[trigger] rest@[i])@ == args@[i
                + 1]@ by {
                assert(parsed[i] == rest@[i]@);
                assert(parsed[i] == words.skip(2)[i - 1]);
                assert(words[i + 1] == args@[i + 1]@);
            }
        },
        CommandLine::Connect(all) => {
            let parsed = text::os_texts(all@);
            assert(parsed.len() == all@.len());
            if args@.len() >= 2 {
                assert(words[1] == args@[1]@);
            }
            assert forall|i: int| 0 <= i < args@.len() implies (#[trigger] all@[i])@
                == args@[i]@ by {
                assert(parsed[i] == all@[i]@);
                assert(words[i] == args@[i]@);
            }
        },
    }
}

/// `resolve` of `HOST/SANDBOX`, with a proper name each, leads to the remote host:
/// to the `ssh_host` that is configured for the name, or else the name itself, with
/// the `sbx_command` that is configured for it, or else `sbx`; neither depends on
/// the other, on the environment or on the default host.
pub proof fn law_resolve_follows_the_alias(
    args: &ConnectArgs,
    config: &Config,
    environment_host: &Option<String>,
    name: Seq<char>,
    sandbox: Seq<char>,
    r: Result<Target, Error>,
)
    requires
        call_ensures(Target::resolve, (args, config, environment_host), r),
        args.sandbox@ == name + seq!['/'] + sandbox,
        !args.local,
        args.host is None,
        name != "local"@,
        config::is_host_name(name),
        target::is_sandbox_name(sandbox),
    ensures
        r is Ok,
        r->Ok_0.sandbox@ == sandbox,
        r->Ok_0.location is Remote,
        ({
            let location = r->Ok_0.location;
            let configured = config@.hosts.contains_key(name);
            let settings = config@.hosts[name];
            &&& configured && settings.ssh_host is Some ==> Some(location->ssh_host@)
                == settings.ssh_host
            &&& !configured || settings.ssh_host is None ==> location->ssh_host@ == name
            &&& configured && settings.sbx_command is Some ==> Some(
                location->Remote_sbx_command@,
            ) == settings.sbx_command
            &&& !configured || settings.sbx_command is None ==> location->Remote_sbx_command@
                == "sbx"@
        }),
{
    assert(!name.contains('/')) by {
        config::law_host_names(name);
    }
    target::law_spelled_host_is_used(
        name,
        sandbox,
        false,
        None,
        text::optional_text(*environment_host),
        config@,
    );
    target::law_alias_overrides_each_setting(config@, name);
}

/// `resolve` of a plain sandbox name: `--host`, the environment and the default host
/// of the configuration decide in this order, `--local` before them all.
pub proof fn law_resolve_chooses_the_host(
    args: &ConnectArgs,
    config: &Config,
    environment_host: &Option<String>,
    r: Result<Target, Error>,
)
    requires
        call_ensures(Target::resolve, (args, config, environment_host), r),
        target::is_sandbox_name(args.sandbox@),
    ensures
        ({
            let chosen = if args.local {
                None
            } else if args.host is Some {
                Some(args.host->0@)
            } else if environment_host is Some {
                Some(environment_host->0@)
            } else if config.default_host is Some {
                Some(config.default_host->0@)
            } else {
                None
            };
            match target::location_of(chosen, config@) {
                Ok(location) => r is Ok && r->Ok_0.location@ == location && r->Ok_0.sandbox@
                    == args.sandbox@,
                Err(failure) => r is Err && r->Err_0@ == failure,
            }
        }),
{
    target::lemma_plain_target(args.sandbox@);
}

/// `resolve` in general, and the names that it and the configuration accept.
pub proof fn law_names_are_judged(
    args: &ConnectArgs,
    config: &Config,
    environment_host: &Option<String>,
    r: Result<Target, Error>,
    name: &str,
    sandbox_judged: Result<(), Error>,
    host_judged: Result<(), Error>,
)
    requires
        call_ensures(Target::resolve, (args, config, environment_host), r),
        call_ensures(target::validate_sandbox_name, (name,), sandbox_judged),
        call_ensures(config::validate_host_name, (name,), host_judged),
    ensures
        target::target_result(r) == target::resolved(
            args.sandbox@,
            args.local,
            text::optional_text(args.host),
            text::optional_text(*environment_host),
            config@,
        ),
        sandbox_judged is Ok <==> target::is_sandbox_name(name@),
        sandbox_judged matches Err(e) ==> e@ == Failure::InvalidSandboxName(name@),
        host_judged is Ok <==> config::is_host_name(name@),
        host_judged matches Err(e) ==> e@ == Failure::InvalidHostName(name@),
{
}

/// `for_target` gives the command that opens the session, and nothing but a remote
/// command that is no text makes it fail. `remote_sbx_command` and `sbx_args` are
/// its two parts.
pub proof fn law_commands_are_built(
    target: &Target,
    sbx: &str,
    sandbox: &str,
    command: &[OsText],
    r: Result<SessionCommand, Error>,
    line: Result<String, Error>,
    args: Vec<OsText>,
)
    requires
        call_ensures(SessionCommand::for_target, (target, command), r),
        call_ensures(command::remote_sbx_command, (sbx, sandbox, command), line),
        call_ensures(command::sbx_args, (sandbox, command), args),
    ensures
        ({
            let words = text::os_texts(command@);
            &&& match command::session_command(target@, words) {
                Some(expected) => r is Ok && r->Ok_0@ == expected,
                None => r is Err && r->Err_0 is RemoteArgumentNotUtf8,
            }
            &&& line is Ok <==> forall|i: int|
                0 <= i < words.len() ==> valid_utf8(#[trigger] words[i])
            &&& line matches Ok(text) ==> text@ == command::command_line(
                command::remote_words(sbx@, sandbox@, words),
            )
            &&& text::os_texts(args@) == command::local_args(sandbox@, words)
        }),
{
}

/// A local session's command is the sbx command of the target, with the sandbox and
/// the words of the command byte for byte; a remote one runs `ssh`.
pub proof fn law_for_target_runs_the_command(
    target: &Target,
    command: &[OsText],
    r: Result<SessionCommand, Error>,
    i: int,
)
    requires
        call_ensures(SessionCommand::for_target, (target, command), r),
        0 <= i < command@.len(),
    ensures
        target.location matches Location::Local { sbx_command } ==> {
            &&& r is Ok
            &&& r->Ok_0.program@ == encode_utf8(sbx_command@)
            &&& r->Ok_0.args@.len() == 3 + command@.len()
            &&& r->Ok_0.args@[0]@ == encode_utf8("exec"@)
            &&& r->Ok_0.args@[1]@ == encode_utf8("-it"@)
            &&& r->Ok_0.args@[2]@ == encode_utf8(target.sandbox@)
            &&& r->Ok_0.args@[3 + i]@ == command@[i]@
        },
        target.location matches Location::Remote { ssh_host, sbx_command } ==> {
            &&& r is Ok ==> r->Ok_0.program@ == encode_utf8("ssh"@) && r->Ok_0.args@.len() == 3
                && r->Ok_0.args@[0]@ == encode_utf8("-t"@) && r->Ok_0.args@[1]@ == encode_utf8(
                ssh_host@,
            ) && r->Ok_0.args@[2]@ == encode_utf8(
                command::command_line(
                    command::remote_words(
                        sbx_command@,
                        target.sandbox@,
                        text::os_texts(command@),
                    ),
                ),
            )
            &&& r is Err ==> exists|k: int|
                0 <= k < command@.len() && !valid_utf8((#[trigger] command@[k])@)
        },
{
    let words = text::os_texts(command@);
    assert(words[i] == command@[i]@);
    match target@.location {
        target::LocationView::Local { sbx_command } => {
            command::law_local_session_runs_sbx(sbx_command, target.sandbox@, words, i);
            let found = r->Ok_0@;
            assert(found.args.len() == r->Ok_0.args@.len());
            assert(found.args[0] == r->Ok_0.args@[0]@);
            assert(found.args[1] == r->Ok_0.args@[1]@);
            assert(found.args[2] == r->Ok_0.args@[2]@);
            assert(found.args[3 + i] == r->Ok_0.args@[3 + i]@);
        },
        target::LocationView::Remote { ssh_host, sbx_command } => {
            command::law_remote_session_runs_ssh(
                ssh_host,
                sbx_command,
                target.sandbox@,
                words,
                i,
            );
            if r is Ok {
                let found = r->Ok_0@;
                assert(found.args.len() == r->Ok_0.args@.len());
                assert(found.args[0] == r->Ok_0.args@[0]@);
                assert(found.args[1] == r->Ok_0.args@[1]@);
                assert(found.args[2] == r->Ok_0.args@[2]@);
            } else {
                let k = choose|k: int| 0 <= k < words.len() && !valid_utf8(#[trigger] words[k]);
                assert(words[k] == command@[k]@);
            }
        },
    }
}

/// The loops of a session do what their steps say: each call takes the state and
/// the event to the next state and the action.
pub proof fn law_session_loops_follow_their_steps(
    typed: InputEvent,
    typed_action: InputAction,
    shown: OutputEvent,
    shown_action: OutputAction,
    pasted: ClipboardEvent,
    pasted_action: ClipboardAction,
    happened: SessionEvent,
    session_action: SessionAction,
)
    ensures
        forall|state: &mut InputLoop| #[trigger]
            call_ensures(InputLoop::input_loop, (state, typed), typed_action) ==> (
                (*final(state)).state(),
                typed_action@,
            ) == input::input_step((*state).state(), typed@),
        forall|state: &mut OutputLoop| #[trigger]
            call_ensures(OutputLoop::relay_output_after_input_ready, (state, shown), shown_action)
                ==> ((*final(state)).state(), shown_action@) == output::output_step(
                (*state).state(),
                shown@,
            ),
        forall|worker: &mut ClipboardWorker| #[trigger]
            call_ensures(ClipboardWorker::clipboard_loop, (worker, pasted), pasted_action) ==> (
                (*final(worker))@,
                pasted_action@,
            ) == paste::worker_step((*worker)@, pasted@),
        forall|worker: &mut ClipboardWorker| #[trigger]
            call_ensures(ClipboardWorker::paste_clipboard, (worker, pasted), pasted_action) ==> (
                (*final(worker))@,
                pasted_action@,
            ) == paste::worker_step((*worker)@, pasted@),
        forall|stage: &mut SessionStage| #[trigger]
            call_ensures(session::run, (stage, happened), session_action) ==> (
                *final(stage),
                session_action@,
            ) == session::session_step(*stage, happened@),
{
}

/// The loops of a session start with nothing kept, asked for or known.
pub proof fn law_session_loops_start_empty(
    clipboard_enabled: bool,
    typed: InputLoop,
    shown: OutputLoop,
    pasted: ClipboardWorker,
    modes: TerminalModes,
    told: bool,
)
    requires
        call_ensures(InputLoop::new, (clipboard_enabled,), typed),
        call_ensures(OutputLoop::default, (), shown),
        call_ensures(ClipboardWorker::default, (), pasted),
        call_ensures(TerminalModes::default, (), modes),
        call_ensures(OutputLoop::bracketed_paste, (&shown,), told),
    ensures
        typed.state().held.len() == 0 && !typed.state().replied && typed.state().pastes == 0,
        typed.state().clipboard_enabled == clipboard_enabled,
        typed.state().phase == input::InputPhase::Starting,
        shown.state().tail.len() == 0 && !shown.state().bracketed_paste && !told,
        shown.state().phase == output::OutputPhase::WaitingForInput,
        pasted@.phase == paste::Phase::Idle && pasted@.transfer is NotStarted,
        modes.tail().len() == 0,
{
}

/// `observe` keeps the mode that all output asks for, however it is cut: told the
/// output `before` in any way that left the right mode and tail, it leaves the right
/// mode and tail for `before` and the new part together. `bracketed_paste` tells it.
pub proof fn law_observe_knows_the_mode(before: Seq<u8>, initial: bool, input: &[u8])
    ensures
        forall|modes: &mut TerminalModes, mode: &mut bool| #[trigger]
            call_ensures(TerminalModes::observe, (modes, input, mode), ()) && (*modes).tail()
                == modes::switch_tail(before) && *mode == modes::mode_after(before, initial) ==> {
                &&& *final(mode) == modes::mode_after(before + input@, initial)
                &&& (*final(modes)).tail() == modes::switch_tail(before + input@)
            },
        forall|state: OutputLoop, told: bool| #[trigger]
            call_ensures(OutputLoop::bracketed_paste, (&state,), told) ==> told
                == state.state().bracketed_paste,
{
    modes::law_mode_survives_split_output(before, input@, initial);
}

/// The parts of the input relay do what their statements say.
pub proof fn law_key_functions_follow_their_statements(
    sequence: &[u8],
    parameters: &[u8],
    number: Option<u16>,
    read: Option<u16>,
    key: bool,
    modified: bool,
    kitty: ShortcutSequence,
    other: ShortcutSequence,
    meaning: ShortcutSequence,
    reply: bool,
)
    requires
        call_ensures(keys::parameter_number, (Some(parameters),), read),
        call_ensures(keys::is_v_codepoint, (number,), key),
        call_ensures(keys::is_clipboard_modifier, (number,), modified),
        call_ensures(keys::kitty_clipboard_shortcut, (parameters,), kitty),
        call_ensures(keys::modify_other_keys_clipboard_shortcut, (parameters,), other),
        call_ensures(keys::clipboard_shortcut_sequence, (sequence,), meaning),
        call_ensures(keys::is_terminal_response, (sequence,), reply),
    ensures
        !parameters@.contains(0x3a) ==> read == keys::number_of(parameters@),
        key <==> number == Some(118u16) || number == Some(86u16),
        modified <==> (number matches Some(m) && (m == 3 || m == 5 || m == 67 || m == 69 || m
            == 131 || m == 133 || m == 195 || m == 197)),
        kitty == keys::shortcut_meaning(seq![0x1bu8, 0x5b] + parameters@ + seq![0x75u8]),
        other == keys::shortcut_meaning(seq![0x1bu8, 0x5b] + parameters@ + seq![0x7eu8]),
        meaning == keys::shortcut_meaning(sequence@),
        reply == keys::is_reply(sequence@),
{
    session::protocol_laws::law_shortcut_modifiers(number);
    session::protocol_laws::law_parameters_are_between(parameters@, 0x75);
    session::protocol_laws::law_parameters_are_between(parameters@, 0x7e);
    if !parameters@.contains(0x3a) {
        session::protocol_laws::law_parameter_ends_at_a_colon(parameters@, Seq::empty());
        assert(parameters@ + Seq::<u8>::empty() =~= parameters@);
    }
}

/// The ends of escape sequences are found where they are.
pub proof fn law_ends_are_found(csi: &[u8], osc: &[u8], csi_end: Option<usize>, osc_end: Option<usize>)
    requires
        call_ensures(escape::csi_sequence_end, (csi,), csi_end),
        call_ensures(escape::osc_sequence_end, (osc,), osc_end),
    ensures
        escape::csi_end(csi@) == match csi_end {
            Some(n) => Some(n as int),
            None => None,
        },
        escape::osc_end(osc@) == match osc_end {
            Some(n) => Some(n as int),
            None => None,
        },
{
}

/// The terminal of the sandbox follows the size that is reported.
pub proof fn law_resize_follows(last: (u16, u16), reported: Option<(u16, u16)>, r: Option<(u16, u16)>)
    requires
        call_ensures(session::resize_loop, (last, reported), r),
    ensures
        reported is None ==> r is None,
        reported is Some && reported->0 == last ==> r is None,
        reported is Some && reported->0 != last ==> r == reported,
{
}

/// The program, its configuration commands and saving do what their steps say.
pub proof fn law_programs_follow_their_steps(
    stage: Stage,
    event: Event,
    r: (Stage, Action),
    config_stage: ConfigStage,
    config_event: ConfigEvent,
    config_r: (ConfigStage, ConfigStep),
    save_stage: SaveStage,
    save_event: SaveEvent,
    save_r: (SaveStage, SaveAction),
)
    requires
        call_ensures(crate::run, (stage, event), r),
        call_ensures(config::run, (config_stage, config_event), config_r),
        call_ensures(save::save_step, (save_stage, save_event), save_r),
    ensures
        (r.0@, r.1@) == program::step(stage@, event@),
        (config_r.0@, config_r.1@) == config::config_step(config_stage@, config_event@),
        (save_r.0@, save_r.1@) == save::next_save(save_stage@, save_event@),
{
}

/// The configuration is judged, searched and changed as its map of hosts says; its
/// path is the explicit one where there is one.
pub proof fn law_configuration_is_kept(
    path: &str,
    source: ConfigSource,
    loaded: Result<Config, Error>,
    explicit: &Option<OsText>,
    default: Option<OsText>,
    chosen: Result<OsText, Error>,
    config: &Config,
    name: &str,
    found: Option<&HostConfig>,
    key: String,
    host: HostConfig,
)
    requires
        call_ensures(Config::load, (path, source), loaded),
        call_ensures(config::resolved_path, (explicit, default), chosen),
        call_ensures(Config::host, (config, name), found),
    ensures
        match config::loaded_config(path@, source) {
            Ok(expected) => loaded is Ok && loaded->Ok_0@ == expected,
            Err(failure) => loaded is Err && loaded->Err_0@ == failure,
        },
        explicit is Some ==> chosen is Ok && chosen->Ok_0@ == explicit->0@,
        explicit is None && default is Some ==> chosen is Ok && chosen->Ok_0@ == default->0@,
        explicit is None && default is None ==> chosen is Err && chosen->Err_0
            is ConfigDirectoryUnknown,
        found is Some <==> config@.hosts.contains_key(name@),
        found is Some ==> found->0@ == config@.hosts[name@],
        forall|changed: &mut Config| #[trigger]
            call_ensures(Config::insert_host, (changed, key, host), ()) ==> {
                &&& (*final(changed))@.hosts == (*changed)@.hosts.insert(key@, host@)
                &&& (*final(changed))@.default_host == (*changed)@.default_host
            },
{
}

/// A saved file gets its temporary name from the process, and a path outside of any
/// directory is refused.
pub proof fn law_save_names_the_file(path: &str, process: u32, placed: Result<String, Error>, unplaced: Result<String, Error>)
    requires
        call_ensures(Config::save, (path, true, process), placed),
        call_ensures(Config::save, (path, false, process), unplaced),
    ensures
        placed is Ok && placed->Ok_0@ == "tmp-"@ + text::decimal_text(process as nat),
        unplaced is Err && unplaced->Err_0@ == Failure::ConfigPathWithoutParent(path@),
{
}

/// An image becomes the PNG file of its width, height and pixels if and only if no
/// side is zero or needs more than 32 bits and there are four bytes for each pixel.
pub proof fn law_images_are_encoded(image: &ImageData, r: Result<Vec<u8>, Error>)
    requires
        call_ensures(clipboard::encode_image, (image,), r),
    ensures
        r is Ok <==> 0 < image.width <= 0xffff_ffff && 0 < image.height <= 0xffff_ffff
            && image.bytes@.len() == image.width * image.height * 4,
        r is Ok ==> r->Ok_0@ == clipboard::png_encoding(
            image.width as u32,
            image.height as u32,
            image.bytes@,
        ),
        r is Err ==> Some(r->Err_0@) == clipboard::image_failure(*image),
{
}

/// Reading the clipboard follows its steps, on this system and through Windows, and
/// a taken name leads to the next of sixteen.
pub proof fn law_clipboard_follows_its_steps(
    native: NativeEvent,
    native_r: NativeStep,
    windows: WindowsEvent,
    windows_r: WindowsStep,
    suffix: u8,
    creation: Creation,
    creation_r: CreationStep,
    wsl: bool,
    access: ClipboardAccess,
    linux: bool,
    named: bool,
    release: &Option<String>,
    on_windows: bool,
)
    requires
        call_ensures(clipboard::read_native_clipboard, (native,), native_r),
        call_ensures(clipboard::read_windows_clipboard_from_wsl, (windows,), windows_r),
        call_ensures(clipboard::create_temporary_image, (suffix, creation), creation_r),
        call_ensures(clipboard::read, (wsl,), access),
        call_ensures(clipboard::is_wsl, (linux, named, release), on_windows),
    ensures
        native_r@ == clipboard::native_step(native),
        windows_r@ == clipboard::windows_step(windows),
        creation_r@ == clipboard::creation_step(suffix, creation),
        creation is AlreadyExists && suffix < 15 ==> creation_r@ == CreationStepView::Try(
            (suffix + 1) as u8,
        ),
        access == ClipboardAccess::Windows <==> wsl,
        on_windows <==> linux && (named || (release is Some && exists|i: int|
            clipboard::microsoft_at(release->0@, i))),
{
    if release is Some {
        clipboard::law_windows_is_recognised(named, release->0@);
    }
}

/// What is handed to Windows: `WSLENV` with all that it held and the new entry, and
/// the script behind PowerShell's switches.
pub proof fn law_windows_gets_its_words(
    name: &str,
    existing: &Option<String>,
    wslenv: String,
    script: &str,
    args: Vec<String>,
)
    requires
        call_ensures(clipboard::wslenv_with_path, (name, existing), wslenv),
        call_ensures(clipboard::powershell_args, (script,), args),
    ensures
        existing is None || existing->0@.len() == 0 ==> wslenv@ == name@ + seq!['/', 'p'],
        existing is Some && existing->0@.len() > 0 ==> wslenv@ == existing->0@ + seq![':'] + name@
            + seq!['/', 'p'],
        args@.len() == 5,
        args@[0]@ == "-NoProfile"@ && args@[1]@ == "-NonInteractive"@ && args@[2]@ == "-STA"@
            && args@[3]@ == "-Command"@ && args@[4]@ == script@,
{
    reveal_strlit(":");
    reveal_strlit("/p");
    assert("/p"@ =~= seq!['/', 'p']);
    assert(":"@ =~= seq![':']);
    let words = args@.map_values(|s: String| s@);
    assert(words.len() == args@.len());
    assert(words[0] == args@[0]@ && words[1] == args@[1]@ && words[2] == args@[2]@ && words[3]
        == args@[3]@ && words[4] == args@[4]@);
}

/// A temporary image keeps the path and the name that it was made with; its name
/// and a session's directory tell process and time.
pub proof fn law_temporary_images_keep_their_names(
    path: OsText,
    name: String,
    image: TemporaryImage,
    kept_path: &OsText,
    kept_name: &str,
    process: u32,
    timestamp: u128,
    suffix: u8,
    made: String,
    directory: String,
)
    requires
        call_ensures(TemporaryImage::new, (path, name), image),
        call_ensures(TemporaryImage::path, (&image,), kept_path),
        call_ensures(TemporaryImage::name, (&image,), kept_name),
        call_ensures(clipboard::image_name, (process, timestamp, suffix), made),
        call_ensures(transfer::session_directory, (process, timestamp), directory),
    ensures
        kept_path@ == path@,
        kept_name@ == name@,
        made@ == "sbc-"@ + text::decimal_text(process as nat) + "-"@ + text::decimal_text(
            timestamp as nat,
        ) + "-"@ + text::decimal_text(suffix as nat) + ".png"@,
        directory@ == "/tmp/sbc"@ + "/"@ + text::decimal_text(process as nat) + "-"@
            + text::decimal_text(timestamp as nat),
{
}

/// The helper of a session: it is started for one directory, opened by its greeting
/// alone, announces each image with its name and its size, and reports its path in
/// that directory once it was acknowledged. A closed one announces nothing.
pub proof fn law_helper_serves_one_directory(
    target: &Target,
    directory: String,
    started: (SessionCommand, TransferSession),
    event: HelperEvent,
    step: HelperStep,
    session: &TransferSession,
    image: &TemporaryImage,
    size: u64,
    announced: Result<String, Error>,
    answer: &str,
    reported: Result<Artifact, Error>,
)
    requires
        call_ensures(TransferSession::start, (target, directory), started),
        call_ensures(TransferSession::upload, (session, image, size), announced),
        call_ensures(TransferSession::acknowledge, (session, image, answer), reported),
    ensures
        started.0@ == transfer::helper_command(target@, directory@),
        started.1.directory_of() == directory@ && !started.1.is_open(),
        forall|helper: &mut TransferSession| #[trigger]
            call_ensures(TransferSession::start_command, (helper, event), step) ==> {
                &&& step@ == transfer::helper_step(event)
                &&& (*final(helper)).directory_of() == (*helper).directory_of()
                &&& (*final(helper)).is_open() <==> step@ is Serve
            },
        forall|helper: &mut TransferSession| #[trigger]
            call_ensures(TransferSession::close, (helper,), ()) ==> !(*final(helper)).is_open()
                && (*final(helper)).directory_of() == (*helper).directory_of(),
        announced is Ok <==> session.is_open(),
        announced is Ok ==> announced->Ok_0@ == "put "@ + image.name_text() + " "@
            + text::decimal_text(size as nat) + "\n"@,
        announced is Err ==> announced->Err_0@ is TransferClosed,
        reported is Ok <==> answer@ == seq!['o', 'k', '\n'],
        reported is Ok ==> reported->Ok_0.path@ == session.directory_of() + seq!['/']
            + image.name_text(),
        reported is Err ==> reported->Err_0@ is TransferNotAcknowledged,
{
    transfer::law_uploads_are_acknowledged(session.directory_of(), image.name_text(), answer@);
}

/// The script of the helper for a directory, and the messages and numbers that are
/// shown, are the stated ones.
pub proof fn law_texts_are_the_stated_ones(
    directory: &str,
    script: String,
    error: &Error,
    message: String,
    n: u128,
    number: String,
)
    requires
        call_ensures(transfer::receiver_script, (directory,), script),
        call_ensures(Failure::<String>::message, (error,), message),
        call_ensures(text::decimal, (n,), number),
    ensures
        script@ == transfer::script_text(directory@),
        message@ == error::failure_text(error@),
        number@ == text::decimal_text(n as nat),
{
}

/// The arguments of a connection, a target and a command are told by their fields.
pub proof fn law_views_tell_the_fields(
    args: ConnectArgs,
    target: Target,
    command: SessionCommand,
    host: HostConfig,
    i: int,
)
    ensures
        args@.host == text::optional_text(args.host),
        args@.local == args.local,
        args@.no_clipboard == args.no_clipboard,
        args@.config == text::optional_os_text(args.config),
        args@.sandbox == args.sandbox@,
        args@.command.len() == args.command@.len(),
        0 <= i < args.command@.len() ==> args@.command[i] == args.command@[i].bytes@,
        target@.sandbox == target.sandbox@,
        target.location matches Location::Local { sbx_command } ==> target@.location == (
        target::LocationView::Local { sbx_command: sbx_command@ }),
        target.location matches Location::Remote { ssh_host, sbx_command } ==> target@.location == (
        target::LocationView::Remote { ssh_host: ssh_host@, sbx_command: sbx_command@ }),
        command@.program == command.program.bytes@,
        command@.args.len() == command.args@.len(),
        0 <= i < command.args@.len() ==> command@.args[i] == command.args@[i].bytes@,
        host@.ssh_host == text::optional_text(host.ssh_host),
        host@.sbx_command == text::optional_text(host.sbx_command),
{
}

/// What happens in a session is told as it is: every byte, every character.
pub proof fn law_session_events_are_told(
    bytes: Vec<u8>,
    text: String,
    a: bool,
    b: bool,
    request: ClipboardRequest,
    size: Option<(u16, u16)>,
)
    ensures
        InputEvent::Sent(a)@ == InputEventView::Sent(a),
        InputEvent::Read(bytes)@ == InputEventView::Read(bytes@),
        InputEvent::ReadFailed@ is ReadFailed,
        InputEvent::Written(a)@ == InputEventView::Written(a),
        (OutputEvent::InputRelay { ready: a })@ == (OutputEventView::InputRelay { ready: a }),
        OutputEvent::Read(bytes)@ == OutputEventView::Read(bytes@),
        OutputEvent::Done@ is Done,
        OutputEvent::Failed(text)@ == OutputEventView::Failed(text@),
        (ClipboardEvent::Request { request, done: a })@ == (ClipboardEventView::Request {
            request,
            done: a,
        }),
        ClipboardEvent::Disconnected@ is Disconnected,
        ClipboardEvent::TransferStarted@ is TransferStarted,
        ClipboardEvent::TransferFailed(text)@ == ClipboardEventView::TransferFailed(text@),
        ClipboardEvent::ReadText(text)@ == ClipboardEventView::ReadText(text@),
        ClipboardEvent::ReadImage@ is ReadImage,
        ClipboardEvent::ReadFailed(text)@ == ClipboardEventView::ReadFailed(text@),
        (ClipboardEvent::Uploaded { path: text })@ == (ClipboardEventView::Uploaded { path: text@ }),
        ClipboardEvent::UploadFailed(text)@ == ClipboardEventView::UploadFailed(text@),
        (SessionEvent::Terminals { input: a, output: b })@ == (SessionEventView::Terminals {
            input: a,
            output: b,
        }),
        SessionEvent::Measured(size)@ == SessionEventView::Measured(size),
        SessionEvent::Done@ is Done,
        SessionEvent::Failed(text)@ == SessionEventView::Failed(text@),
        (SessionEvent::Exited { success: a, status: text })@ == (SessionEventView::Exited {
            success: a,
            status: text@,
        }),
{
}

/// What is to be done in a session is told as it is.
pub proof fn law_session_actions_are_told(
    typed: InputAction,
    shown: OutputAction,
    pasted: ClipboardAction,
    done: SessionAction,
)
    ensures
        typed@ == match typed {
            InputAction::Read => InputActionView::Read,
            InputAction::Write(bytes) => InputActionView::Write(bytes@),
            InputAction::Request(request) => InputActionView::Request(request),
            InputAction::Stop => InputActionView::Stop,
        },
        shown@ == match shown {
            OutputAction::Read => OutputActionView::Read,
            OutputAction::Write(bytes) => OutputActionView::Write(bytes@),
            OutputAction::Flush => OutputActionView::Flush,
            OutputAction::Finish => OutputActionView::Finish,
            OutputAction::Fail(error) => OutputActionView::Fail(error@),
        },
        pasted@ == match pasted {
            ClipboardAction::Receive => ClipboardActionView::Receive,
            ClipboardAction::StartTransfer => ClipboardActionView::StartTransfer,
            ClipboardAction::ReadClipboard => ClipboardActionView::ReadClipboard,
            ClipboardAction::UploadImage => ClipboardActionView::UploadImage,
            ClipboardAction::Paste(text) => ClipboardActionView::Paste(text@),
            ClipboardAction::Notice(text) => ClipboardActionView::Notice(text@),
            ClipboardAction::Stop => ClipboardActionView::Stop,
        },
        done@ == match done {
            SessionAction::Measure => SessionActionView::Measure,
            SessionAction::OpenTerminal { columns, rows } => SessionActionView::OpenTerminal {
                columns,
                rows,
            },
            SessionAction::Spawn => SessionActionView::Spawn,
            SessionAction::Connect => SessionActionView::Connect,
            SessionAction::EnterRawMode => SessionActionView::EnterRawMode,
            SessionAction::Relay => SessionActionView::Relay,
            SessionAction::ShutDown(Ok(())) => SessionActionView::ShutDown(Ok(())),
            SessionAction::ShutDown(Err(error)) => SessionActionView::ShutDown(Err(error@)),
            SessionAction::Fail(error) => SessionActionView::Fail(error@),
        },
{
}

/// What happens to the program and its configuration, and what is to be done, is
/// told as it is.
pub proof fn law_program_steps_are_told(
    words: Vec<OsText>,
    args: ConnectArgs,
    config_args: ConfigArgs,
    path: Option<OsText>,
    host: Option<String>,
    shown: String,
    source: ConfigSource,
    config: Config,
    place: OsText,
    error: Error,
    command: SessionCommand,
    target: Target,
    flag: bool,
)
    ensures
        Event::Arguments(words)@ == EventView::Arguments(text::os_texts(words@)),
        Event::Parsed(Invocation::Connect(args))@ == EventView::Connect(args@),
        Event::Parsed(Invocation::Config(config_args))@ == (EventView::Configure {
            config: text::optional_os_text(config_args.config),
            action: config_args.action@,
        }),
        (Event::Environment { default_path: path, host })@ == (EventView::Environment {
            default_path: text::optional_os_text(path),
            host: text::optional_text(host),
        }),
        (Event::Loaded { path: shown, source })@ == EventView::Loaded(
            config::loaded_config(shown@, source),
        ),
        Action::LoadConfig(place)@ == ActionView::LoadConfig(place@),
        Action::Configure(config_args)@ == (ActionView::Configure {
            config: text::optional_os_text(config_args.config),
            action: config_args.action@,
        }),
        (Action::Connect { command, target, clipboard_enabled: flag })@ == (ActionView::Connect {
            command: command@,
            target: target@,
            clipboard_enabled: flag,
        }),
        Action::Fail(error)@ == ActionView::Fail(error@),
        ConfigAction::SetHost(shown)@ == ConfigActionView::SetHost(shown@),
        ConfigAction::ClearHost@ is ClearHost && ConfigAction::Show@ is Show && ConfigAction::Path@
            is Path,
        ConfigStage::Starting(config_args)@ == (ConfigStageView::Starting {
            config: text::optional_os_text(config_args.config),
            action: config_args.action@,
        }),
        ConfigEvent::DefaultPath(path)@ == ConfigEventView::DefaultPath(
            text::optional_os_text(path),
        ),
        (ConfigEvent::Loaded { path: shown, source })@ == ConfigEventView::Loaded(
            config::loaded_config(shown@, source),
        ),
        (ConfigEvent::Saved { path: shown })@ == (ConfigEventView::Saved { path: shown@ }),
        ConfigEvent::NotSaved(error)@ == ConfigEventView::NotSaved(error@),
        ConfigStep::Load(place)@ == ConfigStepView::Load(place@),
        ConfigStep::PrintPath(place)@ == ConfigStepView::PrintPath(place@),
        ConfigStep::PrintConfig(config)@ == ConfigStepView::PrintConfig(config@),
        (ConfigStep::Save { config, path: place })@ == (ConfigStepView::Save {
            config: config@,
            path: place@,
        }),
        ConfigStep::PrintLine(shown)@ == ConfigStepView::PrintLine(shown@),
        ConfigStep::Fail(error)@ == ConfigStepView::Fail(error@),
        (SaveEvent::Serialized { contents: shown })@ == (SaveEventView::Serialized {
            contents: shown@,
        }),
        SaveEvent::Failed(shown)@ == SaveEventView::Failed(shown@),
        (SaveAction::CreateBeside { extension: shown })@ == (SaveActionView::CreateBeside {
            extension: shown@,
        }),
        (SaveAction::WriteBeside { contents: shown })@ == (SaveActionView::WriteBeside {
            contents: shown@,
        }),
        SaveAction::Fail(error)@ == SaveActionView::Fail(error@),
{
}

/// What is read from the clipboard, and a failure, is told as it is.
pub proof fn law_contents_are_told(file: Vec<u8>, text: String, other: String, error: Error)
    ensures
        NativeStep::UseImage(file)@ == NativeStepView::UseImage(file@),
        NativeStep::UseText(text)@ == NativeStepView::UseText(text@),
        NativeStep::Fail(error)@ == NativeStepView::Fail(error@),
        WindowsStep::UseText(text)@ == WindowsStepView::UseText(text@),
        WindowsStep::Fail(error)@ == WindowsStepView::Fail(error@),
        CreationStep::Fail(error)@ == CreationStepView::Fail(error@),
        HelperStep::Fail(error)@ == HelperStepView::Fail(error@),
        HelperStep::Dismiss(error)@ == HelperStepView::Dismiss(error@),
        Failure::<String>::InvalidHostName(text)@ == Failure::InvalidHostName(text@),
        Failure::<String>::InvalidSandboxName(text)@ == Failure::InvalidSandboxName(text@),
        Failure::<String>::ConfigPathWithoutParent(text)@ == Failure::ConfigPathWithoutParent(
            text@,
        ),
        (Failure::<String>::ConfigUnparsable { path: text, cause: other })@ == (
        Failure::ConfigUnparsable { path: text@, cause: other@ }),
        (Failure::<String>::ConfigUnreadable { path: text, cause: other })@ == (
        Failure::ConfigUnreadable { path: text@, cause: other@ }),
        Failure::<String>::SessionEnded(text)@ == Failure::SessionEnded(text@),
        Failure::<String>::ClipboardUnavailable(text)@ == Failure::ClipboardUnavailable(text@),
        Failure::<String>::ClipboardEmpty(text)@ == Failure::ClipboardEmpty(text@),
        Failure::<String>::ImageNotEncoded(text)@ == Failure::ImageNotEncoded(text@),
        Failure::<String>::WindowsClipboardUnreadable(text)@
            == Failure::WindowsClipboardUnreadable(text@),
        Failure::<String>::ClipboardTextNotUtf8(text)@ == Failure::ClipboardTextNotUtf8(text@),
        Failure::<String>::TransferNotStarted(text)@ == Failure::TransferNotStarted(text@),
        Failure::<String>::Reported(text)@ == Failure::Reported(text@),
{
}

} // verus!
