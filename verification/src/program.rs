//! The program from its command line to a session or a configuration command.

use vstd::prelude::*;
use vstd::utf8::*;

use crate::cli;
use crate::cli::{CommandLine, ConfigActionView, ConfigArgs, ConnectArgs, Invocation};
use crate::command;
use crate::command::{SessionCommand, SessionCommandView};
use crate::config;
use crate::config::{ConfigEventView, ConfigSource, ConfigStageView, ConfigStepView, ConfigView};
use crate::error::{Error, Failure};
use crate::target;
use crate::target::{LocationView, Target, TargetView};
use crate::text;
use crate::text::OsText;

verus! {

/// The arguments of a connection.
#[verifier::ext_equal]
pub struct ConnectArgsView {
    pub host: Option<Seq<char>>,
    pub local: bool,
    pub no_clipboard: bool,
    pub config: Option<Seq<u8>>,
    pub sandbox: Seq<char>,
    pub command: Seq<Seq<u8>>,
}

impl View for ConnectArgs {
    type V = ConnectArgsView;

    open spec fn view(&self) -> ConnectArgsView {
        ConnectArgsView {
            host: text::optional_text(self.host),
            local: self.local,
            no_clipboard: self.no_clipboard,
            config: text::optional_os_text(self.config),
            sandbox: self.sandbox@,
            command: text::os_texts(self.command@),
        }
    }
}

/// What the program waits for.
#[derive(Debug)]
pub enum Stage {
    /// Its arguments.
    Starting,
    /// The arguments to be parsed.
    Parsing,
    /// What the environment says, for a connection.
    Locating(ConnectArgs),
    /// The configuration, for a connection.
    Loading { args: ConnectArgs, environment_host: Option<String> },
    /// Nothing: a session or a configuration command has taken over, or it failed.
    Ended,
}

pub enum StageView {
    Starting,
    Parsing,
    Locating(ConnectArgsView),
    Loading { args: ConnectArgsView, environment_host: Option<Seq<char>> },
    Ended,
}

impl View for Stage {
    type V = StageView;

    open spec fn view(&self) -> StageView {
        match *self {
            Stage::Starting => StageView::Starting,
            Stage::Parsing => StageView::Parsing,
            Stage::Locating(args) => StageView::Locating(args@),
            Stage::Loading { args, environment_host } => StageView::Loading {
                args: args@,
                environment_host: text::optional_text(environment_host),
            },
            Stage::Ended => StageView::Ended,
        }
    }
}

/// What happened.
#[derive(Debug)]
pub enum Event {
    /// The words of the command line, the program's name first.
    Arguments(Vec<OsText>),
    /// What they ask for.
    Parsed(Invocation),
    /// The default path of the configuration, where it is known, and the value
    /// of `SBC_HOST`, where it is set.
    Environment { default_path: Option<OsText>, host: Option<String> },
    /// What became of reading the configuration; `path` is how its path is shown.
    Loaded { path: String, source: ConfigSource },
}

pub enum EventView {
    Arguments(Seq<Seq<u8>>),
    Connect(ConnectArgsView),
    Configure { config: Option<Seq<u8>>, action: ConfigActionView },
    Environment { default_path: Option<Seq<u8>>, host: Option<Seq<char>> },
    Loaded(Result<ConfigView, Failure<Seq<char>>>),
}

impl View for Event {
    type V = EventView;

    open spec fn view(&self) -> EventView {
        match *self {
            Event::Arguments(args) => EventView::Arguments(text::os_texts(args@)),
            Event::Parsed(Invocation::Connect(args)) => EventView::Connect(args@),
            Event::Parsed(Invocation::Config(args)) => EventView::Configure {
                config: text::optional_os_text(args.config),
                action: args.action@,
            },
            Event::Environment { default_path, host } => EventView::Environment {
                default_path: text::optional_os_text(default_path),
                host: text::optional_text(host),
            },
            Event::Loaded { path, source } => EventView::Loaded(
                config::loaded_config(path@, source),
            ),
        }
    }
}

impl Event {
    /// A configuration that was read names no host twice.
    pub open spec fn wf(&self) -> bool {
        self matches Event::Loaded { path, source } ==> source.wf()
    }
}

/// What to do next.
#[derive(Debug)]
pub enum Action {
    /// Parse the words by their grammar.
    Parse(CommandLine),
    AskEnvironment,
    LoadConfig(OsText),
    /// Run this configuration command.
    Configure(ConfigArgs),
    /// Run a session with this command.
    Connect { command: SessionCommand, target: Target, clipboard_enabled: bool },
    Fail(Error),
}

pub enum ActionView {
    ParseConnect(Seq<Seq<u8>>),
    ParseConfig(Seq<Seq<u8>>),
    AskEnvironment,
    LoadConfig(Seq<u8>),
    Configure { config: Option<Seq<u8>>, action: ConfigActionView },
    Connect { command: SessionCommandView, target: TargetView, clipboard_enabled: bool },
    Fail(Failure<Seq<char>>),
}

impl View for Action {
    type V = ActionView;

    open spec fn view(&self) -> ActionView {
        match *self {
            Action::Parse(CommandLine::Connect(words)) => ActionView::ParseConnect(
                text::os_texts(words@),
            ),
            Action::Parse(CommandLine::Config(words)) => ActionView::ParseConfig(
                text::os_texts(words@),
            ),
            Action::AskEnvironment => ActionView::AskEnvironment,
            Action::LoadConfig(path) => ActionView::LoadConfig(path@),
            Action::Configure(args) => ActionView::Configure {
                config: text::optional_os_text(args.config),
                action: args.action@,
            },
            Action::Connect { command, target, clipboard_enabled } => ActionView::Connect {
                command: command@,
                target: target@,
                clipboard_enabled,
            },
            Action::Fail(error) => ActionView::Fail(error@),
        }
    }
}

/// The events that can come in a stage.
pub open spec fn event_fits(stage: StageView, event: EventView) -> bool {
    match stage {
        StageView::Starting => event is Arguments,
        StageView::Parsing => event is Connect || event is Configure,
        StageView::Locating(args) => event is Environment,
        StageView::Loading { args, environment_host } => event is Loaded,
        StageView::Ended => false,
    }
}

/// What the target of a connection is.
pub open spec fn connection_target(
    args: ConnectArgsView,
    environment_host: Option<Seq<char>>,
    config: ConfigView,
) -> Result<TargetView, Failure<Seq<char>>> {
    target::resolved(args.sandbox, args.local, args.host, environment_host, config)
}

/// The session that a connection opens: to the target that the arguments and the
/// configuration name, with their command, and with the clipboard unless it is
/// disabled.
pub open spec fn connection(
    args: ConnectArgsView,
    environment_host: Option<Seq<char>>,
    config: ConfigView,
) -> ActionView {
    match connection_target(args, environment_host, config) {
        Err(failure) => ActionView::Fail(failure),
        Ok(target) => match command::session_command(target, args.command) {
            None => ActionView::Fail(Failure::RemoteArgumentNotUtf8),
            Some(command) => ActionView::Connect {
                command,
                target,
                clipboard_enabled: !args.no_clipboard,
            },
        },
    }
}

/// The next stage, and what to do.
pub open spec fn step(stage: StageView, event: EventView) -> (StageView, ActionView) {
    match event {
        EventView::Arguments(words) => (
            StageView::Parsing,
            if cli::asks_for_config(words) {
                ActionView::ParseConfig(seq![words[0]] + words.skip(2))
            } else {
                ActionView::ParseConnect(words)
            },
        ),
        EventView::Connect(args) => (StageView::Locating(args), ActionView::AskEnvironment),
        EventView::Configure { config, action } => (
            StageView::Ended,
            ActionView::Configure { config, action },
        ),
        EventView::Environment { default_path, host } => match stage {
            StageView::Locating(args) => match config::chosen_path(args.config, default_path) {
                Some(path) => (
                    StageView::Loading { args, environment_host: host },
                    ActionView::LoadConfig(path),
                ),
                None => (StageView::Ended, ActionView::Fail(Failure::ConfigDirectoryUnknown)),
            },
            _ => (StageView::Ended, ActionView::Fail(Failure::ConfigDirectoryUnknown)),
        },
        EventView::Loaded(Err(failure)) => (StageView::Ended, ActionView::Fail(failure)),
        EventView::Loaded(Ok(config)) => match stage {
            StageView::Loading { args, environment_host } => (
                StageView::Ended,
                connection(args, environment_host, config),
            ),
            _ => (StageView::Ended, ActionView::Fail(Failure::ConfigDirectoryUnknown)),
        },
    }
}

/// What `sbc config set-host` saves, starting from the configuration `config`.
pub open spec fn after_set_host(config: ConfigView, host: Seq<char>, path: Seq<u8>) -> ConfigStepView {
    config::config_step(
        ConfigStageView::SettingHost { host, path },
        ConfigEventView::Loaded(Ok(config)),
    ).1
}

/// What `sbc config clear-host` saves, starting from the configuration `config`.
pub open spec fn after_clear_host(config: ConfigView, path: Seq<u8>) -> ConfigStepView {
    config::config_step(
        ConfigStageView::ClearingHost { path },
        ConfigEventView::Loaded(Ok(config)),
    ).1
}

/// Set once, the default host is where every plain sandbox name leads to, with
/// the settings that the configuration has for it. They stay as they were.
pub proof fn law_set_host_is_used(
    config: ConfigView,
    host: Seq<char>,
    path: Seq<u8>,
    sandbox: Seq<char>,
)
    requires
        config::is_host_name(host),
        host != "local"@,
        target::is_sandbox_name(sandbox),
    ensures
        after_set_host(config, host, path) matches ConfigStepView::Save { config: saved, path: to }
            && to == path && saved.hosts == config.hosts && target::resolved(
            sandbox,
            false,
            None,
            None,
            saved,
        ) == target::resolved(host + "/"@ + sandbox, false, None, None, config)
            && (target::resolved(sandbox, false, None, None, saved) matches Ok(reached)
            && reached.sandbox == sandbox && reached.location is Remote),
{
    target::lemma_spelled_target(host, sandbox);
    target::lemma_plain_target(sandbox);
}

/// Once the default host is cleared, a plain sandbox name leads to this machine.
pub proof fn law_cleared_host_is_not_used(
    config: ConfigView,
    path: Seq<u8>,
    sandbox: Seq<char>,
)
    requires
        target::is_sandbox_name(sandbox),
    ensures
        after_clear_host(config, path) matches ConfigStepView::Save { config: saved, path: to }
            && to == path && saved.hosts == config.hosts && (target::resolved(
            sandbox,
            false,
            None,
            None,
            saved,
        ) matches Ok(reached) && reached.location == (LocationView::Local {
            sbx_command: "sbx"@,
        })),
{
    target::lemma_plain_target(sandbox);
}

/// Setting and then clearing the default host leaves the settings of all hosts
/// as they were, and no default host.
pub proof fn law_clearing_undoes_setting(config: ConfigView, host: Seq<char>, path: Seq<u8>)
    ensures
        after_set_host(config, host, path) matches ConfigStepView::Save { config: saved, path: to }
            && after_clear_host(saved, to) == after_clear_host(config, path),
{
}

/// A host name that is none is refused before the configuration is read.
pub proof fn law_bad_host_is_refused_at_once(
    explicit: Option<Seq<u8>>,
    default: Option<Seq<u8>>,
    host: Seq<char>,
)
    requires
        !config::is_host_name(host),
    ensures
        config::config_step(
            ConfigStageView::Starting {
                config: explicit,
                action: ConfigActionView::SetHost(host),
            },
            ConfigEventView::DefaultPath(default),
        ) == (
            ConfigStageView::Ended,
            ConfigStepView::Fail(Failure::InvalidHostName(host)),
        ),
{
}

/// A specific configuration file is used whatever the default path is, also where
/// that is unknown: a connection and every configuration command go on with the
/// explicit path alone.
pub proof fn law_explicit_path_is_used(
    args: ConnectArgsView,
    action: ConfigActionView,
    path: Seq<u8>,
    default: Option<Seq<u8>>,
    host: Option<Seq<char>>,
)
    requires
        args.config == Some(path),
    ensures
        step(
            StageView::Locating(args),
            EventView::Environment { default_path: default, host },
        ) == (
            StageView::Loading { args, environment_host: host },
            ActionView::LoadConfig(path),
        ),
        ({
            let started = config::config_step(
                ConfigStageView::Starting { config: Some(path), action },
                ConfigEventView::DefaultPath(default),
            ).1;
            match action {
                ConfigActionView::Path => started == ConfigStepView::PrintPath(path),
                ConfigActionView::Show | ConfigActionView::ClearHost => started
                    == ConfigStepView::Load(path),
                ConfigActionView::SetHost(name) => started == if config::is_host_name(name) {
                    ConfigStepView::Load(path)
                } else {
                    ConfigStepView::Fail(Failure::InvalidHostName(name))
                },
            }
        }),
{
}

/// What an explicit configuration file holds decides a connection, whatever the
/// default path is.
pub proof fn law_explicit_file_decides(
    args: ConnectArgsView,
    path: Seq<u8>,
    default: Option<Seq<u8>>,
    host: Option<Seq<char>>,
    loaded: Result<ConfigView, Failure<Seq<char>>>,
)
    requires
        args.config == Some(path),
    ensures
        ({
            let loading = step(
                StageView::Locating(args),
                EventView::Environment { default_path: default, host },
            ).0;
            step(loading, EventView::Loaded(loaded)).1 == match loaded {
                Ok(config) => connection(args, host, config),
                Err(failure) => ActionView::Fail(failure),
            }
        }),
{
}

/// The arguments of a connection reach the session: the clipboard is bridged
/// unless it is disabled, and the command runs in the sandbox that was named.
pub proof fn law_arguments_reach_the_session(
    args: ConnectArgsView,
    default_path: Option<Seq<u8>>,
    environment_host: Option<Seq<char>>,
    config: ConfigView,
)
    requires
        args.config is Some || default_path is Some,
        connection_target(args, environment_host, config) is Ok,
    ensures
        ({
            let (locating, ask) = step(StageView::Parsing, EventView::Connect(args));
            let (loading, load) = step(
                locating,
                EventView::Environment { default_path, host: environment_host },
            );
            let (end, action) = step(loading, EventView::Loaded(Ok(config)));
            let reached = connection_target(args, environment_host, config)->Ok_0;
            &&& ask is AskEnvironment
            &&& Some(load) == match config::chosen_path(args.config, default_path) {
                Some(path) => Some(ActionView::LoadConfig(path)),
                None => None,
            }
            &&& match command::session_command(reached, args.command) {
                Some(command) => action == (ActionView::Connect {
                    command,
                    target: reached,
                    clipboard_enabled: !args.no_clipboard,
                }),
                None => action == ActionView::Fail(Failure::RemoteArgumentNotUtf8),
            }
        }),
{
}

/// The word `config` behind the program's name asks for a configuration command,
/// with the words that follow it; every other line asks for a connection.
pub proof fn law_command_line_is_parsed(
    program: Seq<u8>,
    first: Seq<u8>,
    rest: Seq<Seq<u8>>,
)
    ensures
        step(
            StageView::Starting,
            EventView::Arguments(seq![program, encode_utf8("config"@)] + rest),
        ) == (StageView::Parsing, ActionView::ParseConfig(seq![program] + rest)),
        first != encode_utf8("config"@) ==> step(
            StageView::Starting,
            EventView::Arguments(seq![program, first] + rest),
        ) == (StageView::Parsing, ActionView::ParseConnect(seq![program, first] + rest)),
        step(StageView::Starting, EventView::Arguments(seq![program])) == (
            StageView::Parsing,
            ActionView::ParseConnect(seq![program]),
        ),
{
    cli::law_config_chooses_the_grammar(program, first, rest);
}

/// What was parsed is carried on as it is: a configuration command is handed over,
/// and a connection asks the environment, keeping its arguments. Without any path
/// for the configuration, it fails.
pub proof fn law_parsed_arguments_are_kept(
    args: ConnectArgsView,
    explicit: Option<Seq<u8>>,
    action: ConfigActionView,
    path: Seq<u8>,
    host: Option<Seq<char>>,
)
    ensures
        step(StageView::Parsing, EventView::Configure { config: explicit, action }) == (
            StageView::Ended,
            ActionView::Configure { config: explicit, action },
        ),
        step(StageView::Parsing, EventView::Connect(args)) == (
            StageView::Locating(args),
            ActionView::AskEnvironment,
        ),
        args.config is None ==> step(
            StageView::Locating(args),
            EventView::Environment { default_path: Some(path), host },
        ) == (
            StageView::Loading { args, environment_host: host },
            ActionView::LoadConfig(path),
        ),
        args.config is None ==> step(
            StageView::Locating(args),
            EventView::Environment { default_path: None, host },
        ) == (StageView::Ended, ActionView::Fail(Failure::ConfigDirectoryUnknown)),
{
}

/// A connection opens a session with the target that its arguments, the environment
/// and the configuration lead to, and bridges the clipboard if and only if that is
/// not disabled. What stands in the way is told: an unreadable configuration, a bad
/// target, or a remote command that is no text.
pub proof fn law_connection_is_made_or_told(
    args: ConnectArgsView,
    environment_host: Option<Seq<char>>,
    config: ConfigView,
    failure: Failure<Seq<char>>,
)
    ensures
        ({
            let loading = StageView::Loading { args, environment_host };
            let action = step(loading, EventView::Loaded(Ok(config))).1;
            let led_to = target::resolved(
                args.sandbox,
                args.local,
                args.host,
                environment_host,
                config,
            );
            &&& step(loading, EventView::Loaded(Err(failure))).1 == ActionView::Fail(failure)
            &&& led_to matches Err(refusal) ==> action == ActionView::Fail(refusal)
            &&& led_to matches Ok(reached) ==> match command::session_command(
                reached,
                args.command,
            ) {
                Some(found) => action == (ActionView::Connect {
                    command: found,
                    target: reached,
                    clipboard_enabled: !args.no_clipboard,
                }),
                None => action == ActionView::Fail(Failure::RemoteArgumentNotUtf8),
            }
        }),
{
}

} // verus!
