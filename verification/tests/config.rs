//! The configuration and its commands.

use sbc::cli::{ConfigAction, ConfigArgs};
use sbc::config::{
    is_white_space, resolved_path, run, validate_host_name, Config, ConfigEvent, ConfigSource,
    ConfigStage, ConfigStep, HostConfig,
};
use sbc::config::save::{save_step, SaveAction, SaveEvent, SaveStage};
use sbc::error::Failure;
use sbc::text::OsText;

fn path(text: &str) -> OsText {
    OsText::from_text(text)
}

#[test]
fn missing_config_is_empty() {
    let config = Config::load("/nowhere/config.toml", ConfigSource::Missing).unwrap();
    assert!(config.default_host.is_none());
}

#[test]
fn rejects_option_shaped_host() {
    assert!(validate_host_name("-oProxyCommand=bad").is_err());
}

#[test]
fn host_names_are_judged() {
    assert!(validate_host_name("build-server").is_ok());
    assert!(validate_host_name("user@build.example:22").is_ok());
    assert!(validate_host_name("").is_err());
    assert!(validate_host_name("a/b").is_err());
    assert!(validate_host_name("a b").is_err());
    assert!(validate_host_name("a\u{2003}b").is_err());
    let error = validate_host_name("a\nb").unwrap_err();
    assert_eq!(error.message(), "invalid SSH host name: \"a\\nb\"");
}

#[test]
fn white_space_is_that_of_unicode() {
    for code in 0..=0x10ffff_u32 {
        if let Some(c) = char::from_u32(code) {
            assert_eq!(is_white_space(c), c.is_whitespace(), "{code:x}");
        }
    }
}

#[test]
fn bad_files_are_told_of() {
    let error = Config::load("c.toml", ConfigSource::Unparsable("line 1".to_owned())).unwrap_err();
    assert_eq!(error.message(), "could not parse c.toml: line 1");
    let error = Config::load("c.toml", ConfigSource::Unreadable("denied".to_owned())).unwrap_err();
    assert_eq!(error.message(), "could not read c.toml: denied");
}

#[test]
fn hosts_are_found_and_replaced() {
    let mut config = Config::default();
    assert!(config.host("build").is_none());
    config.insert_host(
        "build".to_owned(),
        HostConfig { ssh_host: Some("one".to_owned()), sbx_command: None },
    );
    config.insert_host(
        "other".to_owned(),
        HostConfig { ssh_host: None, sbx_command: Some("sbx2".to_owned()) },
    );
    config.insert_host(
        "build".to_owned(),
        HostConfig { ssh_host: Some("two".to_owned()), sbx_command: None },
    );
    assert_eq!(config.hosts.len(), 2);
    assert_eq!(config.host("build").unwrap().ssh_host.as_deref(), Some("two"));
    assert_eq!(config.host("other").unwrap().sbx_command.as_deref(), Some("sbx2"));
}

#[test]
fn paths_are_chosen() {
    let unknown = "could not determine the user configuration directory";
    assert_eq!(
        resolved_path(&Some(path("a")), Some(path("b"))).unwrap(),
        path("a")
    );
    assert_eq!(resolved_path(&Some(path("a")), None).unwrap(), path("a"));
    assert_eq!(resolved_path(&None, Some(path("b"))).unwrap(), path("b"));
    assert_eq!(resolved_path(&None, None).unwrap_err().message(), unknown);
}

#[test]
fn a_file_is_saved_beside_its_place() {
    assert_eq!(Config::save("/c/config.toml", true, 42).unwrap(), "tmp-42");
    let error = Config::save("/", false, 42).unwrap_err();
    assert_eq!(error.message(), "configuration path has no parent: /");
}

/// Saves up to the look at the destination.
fn completed() -> SaveStage {
    let placed = SaveEvent::Placed {
        path: "/c/config.toml".to_owned(),
        in_directory: true,
        process: 42,
    };
    let (stage, action) = save_step(SaveStage::Starting, placed);
    assert!(matches!(action, SaveAction::MakeDirectory));
    let (stage, action) = save_step(stage, SaveEvent::Done);
    assert!(matches!(action, SaveAction::Serialize));
    let contents = "default_host = \"build\"\n".to_owned();
    let (stage, action) = save_step(stage, SaveEvent::Serialized { contents });
    assert!(matches!(
        action,
        SaveAction::CreateBeside { extension } if extension == "tmp-42"
    ));
    let (stage, action) = save_step(stage, SaveEvent::Done);
    assert!(matches!(
        action,
        SaveAction::WriteBeside { contents } if contents == "default_host = \"build\"\n"
    ));
    let (stage, action) = save_step(stage, SaveEvent::Done);
    assert!(matches!(action, SaveAction::SyncBeside));
    let (stage, action) = save_step(stage, SaveEvent::Done);
    assert!(matches!(action, SaveAction::LookAtDestination));
    stage
}

#[test]
fn a_complete_file_replaces_the_old_one() {
    for (exists, move_replaces) in [(true, true), (false, true), (false, false)] {
        let looked = SaveEvent::Looked { exists, move_replaces };
        let (stage, action) = save_step(completed(), looked);
        assert!(matches!(action, SaveAction::Replace));
        let (stage, action) = save_step(stage, SaveEvent::Done);
        assert!(matches!(action, SaveAction::Finish));
        assert!(matches!(stage, SaveStage::Ended));
    }
}

#[test]
fn an_old_file_in_the_way_is_removed_first() {
    let looked = SaveEvent::Looked {
        exists: true,
        move_replaces: false,
    };
    let (stage, action) = save_step(completed(), looked);
    assert!(matches!(action, SaveAction::RemoveDestination));
    let (stage, action) = save_step(stage, SaveEvent::Done);
    assert!(matches!(action, SaveAction::Replace));
    let (_, action) = save_step(stage, SaveEvent::Done);
    assert!(matches!(action, SaveAction::Finish));
}

#[test]
fn a_failure_leaves_the_old_file() {
    for stage in [
        SaveStage::MakingDirectory { extension: "tmp-42".to_owned() },
        SaveStage::Serializing { extension: "tmp-42".to_owned() },
        SaveStage::Creating { contents: String::new() },
        SaveStage::Writing,
        SaveStage::Syncing,
    ] {
        let (stage, action) = save_step(stage, SaveEvent::Failed("disk full".to_owned()));
        assert!(matches!(stage, SaveStage::Ended));
        assert!(matches!(
            action,
            SaveAction::Fail(error) if error.message() == "disk full"
        ));
    }
    let unplaced = SaveEvent::Placed {
        path: "/".to_owned(),
        in_directory: false,
        process: 42,
    };
    let (_, action) = save_step(SaveStage::Starting, unplaced);
    assert!(matches!(
        action,
        SaveAction::Fail(error) if error.message() == "configuration path has no parent: /"
    ));
}

#[test]
fn an_explicit_file_needs_no_default_path() {
    for action in [
        ConfigAction::Show,
        ConfigAction::ClearHost,
        ConfigAction::SetHost("build".to_owned()),
    ] {
        let args = ConfigArgs { config: Some(path("my.toml")), action };
        let (_, step) = run(ConfigStage::Starting(args), ConfigEvent::DefaultPath(None));
        assert!(matches!(step, ConfigStep::Load(from) if from == path("my.toml")));
    }
    let args = ConfigArgs { config: Some(path("my.toml")), action: ConfigAction::Path };
    let (_, step) = run(ConfigStage::Starting(args), ConfigEvent::DefaultPath(None));
    assert!(matches!(step, ConfigStep::PrintPath(shown) if shown == path("my.toml")));
}

fn start(action: ConfigAction) -> (ConfigStage, ConfigStep) {
    let args = ConfigArgs { config: None, action };
    run(
        ConfigStage::Starting(args),
        ConfigEvent::DefaultPath(Some(path("/c/config.toml"))),
    )
}

fn loaded() -> ConfigEvent {
    let mut config = Config::default();
    config.default_host = Some("old".to_owned());
    config.insert_host(
        "build".to_owned(),
        HostConfig { ssh_host: Some("linux.example".to_owned()), sbx_command: None },
    );
    ConfigEvent::Loaded {
        path: "/c/config.toml".to_owned(),
        source: ConfigSource::Parsed(config),
    }
}

fn saved() -> ConfigEvent {
    ConfigEvent::Saved { path: "/c/config.toml".to_owned() }
}

#[test]
fn the_path_is_printed_without_reading_it() {
    let (stage, step) = start(ConfigAction::Path);
    assert!(matches!(stage, ConfigStage::Ended));
    assert!(matches!(step, ConfigStep::PrintPath(p) if p == path("/c/config.toml")));
}

#[test]
fn the_configuration_is_shown() {
    let (stage, step) = start(ConfigAction::Show);
    assert!(matches!(step, ConfigStep::Load(p) if p == path("/c/config.toml")));
    let (stage, step) = run(stage, loaded());
    assert!(matches!(stage, ConfigStage::Ended));
    assert!(matches!(
        step,
        ConfigStep::PrintConfig(config) if config.default_host.as_deref() == Some("old")
    ));
}

#[test]
fn a_default_host_is_set() {
    let (stage, step) = start(ConfigAction::SetHost("build".to_owned()));
    assert!(matches!(step, ConfigStep::Load(_)));
    let (stage, step) = run(stage, loaded());
    let ConfigStep::Save { config, path: to } = step else {
        panic!("expected a save");
    };
    assert_eq!(to, path("/c/config.toml"));
    assert_eq!(config.default_host.as_deref(), Some("build"));
    assert_eq!(
        config.host("build").unwrap().ssh_host.as_deref(),
        Some("linux.example")
    );
    let (_, step) = run(stage, saved());
    assert!(matches!(
        step,
        ConfigStep::PrintLine(line) if line == "Default sandbox host saved to /c/config.toml"
    ));
}

#[test]
fn a_default_host_is_cleared() {
    let (stage, _) = start(ConfigAction::ClearHost);
    let (stage, step) = run(stage, loaded());
    let ConfigStep::Save { config, .. } = step else {
        panic!("expected a save");
    };
    assert!(config.default_host.is_none());
    assert_eq!(config.hosts.len(), 1);
    let (_, step) = run(stage, saved());
    assert!(matches!(
        step,
        ConfigStep::PrintLine(line) if line == "Default sandbox host cleared in /c/config.toml"
    ));
}

#[test]
fn a_bad_host_is_refused_before_reading() {
    let (stage, step) = start(ConfigAction::SetHost("-x".to_owned()));
    assert!(matches!(stage, ConfigStage::Ended));
    let ConfigStep::Fail(error) = step else {
        panic!("expected a failure");
    };
    assert_eq!(error.message(), "invalid SSH host name: \"-x\"");
}

#[test]
fn a_failed_save_is_told_of() {
    let error = Failure::Reported("disk full".to_owned());
    let (_, step) = run(ConfigStage::SavingHost, ConfigEvent::NotSaved(error));
    let ConfigStep::Fail(error) = step else {
        panic!("expected a failure");
    };
    assert_eq!(error.message(), "disk full");
}

#[test]
fn an_unreadable_configuration_is_not_saved() {
    let (stage, _) = start(ConfigAction::ClearHost);
    let unreadable = ConfigEvent::Loaded {
        path: "/c/config.toml".to_owned(),
        source: ConfigSource::Unreadable("denied".to_owned()),
    };
    let (_, step) = run(stage, unreadable);
    let ConfigStep::Fail(error) = step else {
        panic!("expected a failure");
    };
    assert_eq!(error.message(), "could not read /c/config.toml: denied");
}
