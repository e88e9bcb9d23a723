//! The program from its command line to a session.

use sbc::cli::{parse_from, CommandLine, ConfigAction, ConfigArgs, ConnectArgs, Invocation};
use sbc::config::{Config, ConfigEvent, ConfigSource, ConfigStage, ConfigStep};
use sbc::program::{Action, Event, Stage};
use sbc::run;
use sbc::target::Location;
use sbc::text::OsText;

fn words(list: &[&str]) -> Vec<OsText> {
    list.iter().map(|word| OsText::from_text(word)).collect()
}

fn args(sandbox: &str, command: &[&str]) -> ConnectArgs {
    ConnectArgs {
        host: None,
        local: false,
        no_clipboard: false,
        config: None,
        sandbox: sandbox.to_owned(),
        command: words(command),
    }
}

fn environment() -> Event {
    Event::Environment {
        default_path: Some(OsText::from_text("/c/config.toml")),
        host: None,
    }
}

fn loaded(source: ConfigSource) -> Event {
    Event::Loaded {
        path: "/c/config.toml".to_owned(),
        source,
    }
}

/// Connects with these arguments and this configuration.
fn connect(args: ConnectArgs, source: ConfigSource) -> Action {
    let (stage, action) = run(Stage::Parsing, Event::Parsed(Invocation::Connect(args)));
    assert!(matches!(action, Action::AskEnvironment));
    let (stage, action) = run(stage, environment());
    assert!(matches!(action, Action::LoadConfig(_)));
    run(stage, loaded(source)).1
}

#[test]
fn parses_agent_reconnect() {
    let CommandLine::Connect(line) = parse_from(words(&["sbc", "demo"])) else {
        panic!("expected connect invocation");
    };
    assert_eq!(line[1], OsText::from_text("demo"));
    assert!(line[2..].is_empty());
}

#[test]
fn parses_arbitrary_command_after_separator() {
    let CommandLine::Connect(line) =
        parse_from(words(&["sbc", "build/demo", "--", "bash", "-l"]))
    else {
        panic!("expected connect invocation");
    };
    assert_eq!(line[1], OsText::from_text("build/demo"));
    assert_eq!(line[2], OsText::from_text("--"));
    assert_eq!(line[3..], words(&["bash", "-l"])[..]);
}

#[test]
fn parses_config_command() {
    let CommandLine::Config(line) = parse_from(words(&["sbc", "config", "set-host", "build"]))
    else {
        panic!("expected config invocation");
    };
    assert_eq!(line, words(&["sbc", "set-host", "build"]));
}

#[test]
fn the_word_config_chooses_the_grammar() {
    let (_, action) = run(
        Stage::Starting,
        Event::Arguments(words(&["sbc", "config", "set-host", "build"])),
    );
    assert!(matches!(
        action,
        Action::Parse(CommandLine::Config(rest)) if rest == words(&["sbc", "set-host", "build"])
    ));
    for line in [
        words(&["sbc", "build/demo", "--", "bash", "-l"]),
        words(&["sbc"]),
        words(&["sbc", "configs"]),
        words(&["sbc", "demo", "config"]),
        words(&[]),
    ] {
        let (_, action) = run(Stage::Starting, Event::Arguments(line.clone()));
        assert!(matches!(action, Action::Parse(CommandLine::Connect(all)) if all == line));
    }
}

#[test]
fn a_connection_opens_a_session() {
    let action = connect(args("demo", &[]), ConfigSource::Missing);
    let Action::Connect { command, target, clipboard_enabled } = action else {
        panic!("expected a session");
    };
    assert_eq!(command.program, OsText::from_text("sbx"));
    assert_eq!(command.args, words(&["run", "--name", "demo"]));
    assert_eq!(target.sandbox, "demo");
    assert!(clipboard_enabled);
}

#[test]
fn a_configured_host_is_connected_to() {
    let mut config = Config::default();
    config.default_host = Some("build".to_owned());
    let mut quiet = args("demo", &["bash"]);
    quiet.no_clipboard = true;
    let action = connect(quiet, ConfigSource::Parsed(config));
    let Action::Connect { command, target, clipboard_enabled } = action else {
        panic!("expected a session");
    };
    assert_eq!(command.program, OsText::from_text("ssh"));
    assert_eq!(command.args, words(&["-t", "build", "sbx exec -it demo bash"]));
    assert!(matches!(
        target.location,
        Location::Remote { ssh_host, .. } if ssh_host == "build"
    ));
    assert!(!clipboard_enabled);
}

/// What a configuration command saves, starting from `config`.
fn saved(action: ConfigAction, config: Config) -> Config {
    let args = ConfigArgs { config: None, action };
    let (stage, _) = sbc::config::run(
        ConfigStage::Starting(args),
        ConfigEvent::DefaultPath(Some(OsText::from_text("/c/config.toml"))),
    );
    let event = ConfigEvent::Loaded {
        path: "/c/config.toml".to_owned(),
        source: ConfigSource::Parsed(config),
    };
    let (_, ConfigStep::Save { config, .. }) = sbc::config::run(stage, event) else {
        panic!("expected a save");
    };
    config
}

#[test]
fn a_host_that_was_set_is_used_until_it_is_cleared() {
    let config = saved(ConfigAction::SetHost("build".to_owned()), Config::default());
    let set = connect(args("demo", &[]), ConfigSource::Parsed(config.clone()));
    let spelled = connect(args("build/demo", &[]), ConfigSource::Missing);
    let (Action::Connect { target: reached, .. }, Action::Connect { target: named, .. }) =
        (set, spelled)
    else {
        panic!("expected two sessions");
    };
    assert_eq!(reached, named);

    let config = saved(ConfigAction::ClearHost, config);
    let Action::Connect { target, .. } = connect(args("demo", &[]), ConfigSource::Parsed(config))
    else {
        panic!("expected a session");
    };
    assert!(matches!(target.location, Location::Local { .. }));
}

#[test]
fn an_explicit_configuration_is_read() {
    let mut explicit = args("demo", &[]);
    explicit.config = Some(OsText::from_text("my.toml"));
    let (stage, _) = run(Stage::Parsing, Event::Parsed(Invocation::Connect(explicit)));
    let (_, action) = run(stage, environment());
    assert!(matches!(action, Action::LoadConfig(path) if path == OsText::from_text("my.toml")));
}

#[test]
fn an_explicit_configuration_needs_no_default_path() {
    let mut explicit = args("demo", &[]);
    explicit.config = Some(OsText::from_text("my.toml"));
    let (stage, _) = run(Stage::Parsing, Event::Parsed(Invocation::Connect(explicit)));
    let homeless = Event::Environment {
        default_path: None,
        host: None,
    };
    let (stage, action) = run(stage, homeless);
    assert!(matches!(action, Action::LoadConfig(path) if path == OsText::from_text("my.toml")));
    let mut config = Config::default();
    config.default_host = Some("build".to_owned());
    let (_, action) = run(stage, loaded(ConfigSource::Parsed(config)));
    let Action::Connect { target, .. } = action else {
        panic!("expected a session");
    };
    assert!(matches!(
        target.location,
        Location::Remote { ssh_host, .. } if ssh_host == "build"
    ));
}

#[test]
fn connections_that_cannot_be_made_fail() {
    let Action::Fail(error) = connect(args("d\u{e9}mo", &[]), ConfigSource::Missing) else {
        panic!("expected a failure");
    };
    assert_eq!(error.message(), "invalid sandbox name: \"d\u{e9}mo\"");

    let broken = ConfigSource::Unparsable("expected `=`".to_owned());
    let Action::Fail(error) = connect(args("demo", &[]), broken) else {
        panic!("expected a failure");
    };
    assert_eq!(
        error.message(),
        "could not parse /c/config.toml: expected `=`"
    );

    let mut odd = args("build/demo", &[]);
    odd.command = vec![OsText { bytes: vec![0xc0] }];
    let Action::Fail(error) = connect(odd, ConfigSource::Missing) else {
        panic!("expected a failure");
    };
    assert_eq!(
        error.message(),
        "remote command arguments must be valid UTF-8"
    );

    let (stage, _) = run(
        Stage::Parsing,
        Event::Parsed(Invocation::Connect(args("demo", &[]))),
    );
    let homeless = Event::Environment {
        default_path: None,
        host: None,
    };
    let (_, Action::Fail(error)) = run(stage, homeless) else {
        panic!("expected a failure");
    };
    assert_eq!(
        error.message(),
        "could not determine the user configuration directory"
    );
}

#[test]
fn a_configuration_command_is_handed_over() {
    let config = ConfigArgs {
        config: None,
        action: ConfigAction::Show,
    };
    let (stage, action) = run(Stage::Parsing, Event::Parsed(Invocation::Config(config)));
    assert!(matches!(stage, Stage::Ended));
    assert!(matches!(
        action,
        Action::Configure(ConfigArgs { config: None, action: ConfigAction::Show })
    ));
}
