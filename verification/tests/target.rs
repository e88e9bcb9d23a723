//! Which sandbox a connection leads to.

use sbc::cli::ConnectArgs;
use sbc::config::{Config, HostConfig};
use sbc::target::{validate_sandbox_name, Location, Target};

fn args(name: &str) -> ConnectArgs {
    ConnectArgs {
        host: None,
        local: false,
        no_clipboard: false,
        config: None,
        sandbox: name.to_owned(),
        command: vec![],
    }
}

fn remote(ssh_host: &str, sbx_command: &str) -> Location {
    Location::Remote {
        ssh_host: ssh_host.to_owned(),
        sbx_command: sbx_command.to_owned(),
    }
}

fn default_host(host: &str) -> Config {
    Config {
        default_host: Some(host.to_owned()),
        ..Config::default()
    }
}

#[test]
fn defaults_to_local_without_configuration() {
    let target = Target::resolve(&args("demo"), &Config::default(), &None).unwrap();
    assert!(matches!(target.location, Location::Local { .. }));
}

#[test]
fn uses_default_remote_host() {
    let config = Config {
        default_host: Some("build".into()),
        ..Config::default()
    };
    let target = Target::resolve(&args("demo"), &config, &None).unwrap();
    assert!(matches!(
        target.location,
        Location::Remote { ref ssh_host, .. } if ssh_host == "build"
    ));
}

#[test]
fn explicit_target_uses_host_configuration() {
    let mut config = Config::default();
    config.insert_host(
        "build".into(),
        HostConfig {
            ssh_host: Some("linux.example".into()),
            sbx_command: Some("/usr/bin/sbx".into()),
        },
    );
    let target = Target::resolve(&args("build/demo"), &config, &None).unwrap();
    assert_eq!(
        target.location,
        Location::Remote {
            ssh_host: "linux.example".into(),
            sbx_command: "/usr/bin/sbx".into()
        }
    );
}

#[test]
fn explicit_local_target_ignores_default_host() {
    let config = Config {
        default_host: Some("build".into()),
        ..Config::default()
    };
    let target = Target::resolve(&args("local/demo"), &config, &None).unwrap();
    assert!(matches!(target.location, Location::Local { .. }));
}

#[test]
fn hosts_have_an_order_of_precedence() {
    let config = default_host("configured");
    let environment = Some("inherited".to_owned());

    let mut explicit = args("demo");
    explicit.host = Some("given".to_owned());
    let target = Target::resolve(&explicit, &config, &environment).unwrap();
    assert_eq!(target.location, remote("given", "sbx"));

    let target = Target::resolve(&args("spelled/demo"), &config, &environment).unwrap();
    assert_eq!(target.location, remote("spelled", "sbx"));

    let target = Target::resolve(&args("demo"), &config, &environment).unwrap();
    assert_eq!(target.location, remote("inherited", "sbx"));

    let target = Target::resolve(&args("demo"), &config, &None).unwrap();
    assert_eq!(target.location, remote("configured", "sbx"));

    let mut local = args("demo");
    local.local = true;
    let target = Target::resolve(&local, &config, &environment).unwrap();
    assert!(matches!(
        target.location,
        Location::Local { ref sbx_command } if sbx_command == "sbx"
    ));
}

#[test]
fn partial_host_settings_keep_the_rest() {
    let mut config = Config::default();
    config.insert_host(
        "build".to_owned(),
        HostConfig {
            ssh_host: None,
            sbx_command: Some("/opt/sbx".to_owned()),
        },
    );
    let target = Target::resolve(&args("build/demo"), &config, &None).unwrap();
    assert_eq!(target.location, remote("build", "/opt/sbx"));
}

#[test]
fn only_the_first_slash_separates() {
    let error = Target::resolve(&args("build/demo/x"), &Config::default(), &None).unwrap_err();
    assert_eq!(error.message(), "invalid sandbox name: \"demo/x\"");
}

#[test]
fn conflicting_hosts_are_refused() {
    let mut local = args("build/demo");
    local.local = true;
    let error = Target::resolve(&local, &Config::default(), &None).unwrap_err();
    assert_eq!(error.message(), "--local cannot be combined with HOST/SANDBOX");

    let mut host = args("build/demo");
    host.host = Some("other".to_owned());
    let error = Target::resolve(&host, &Config::default(), &None).unwrap_err();
    assert_eq!(error.message(), "--host cannot be combined with HOST/SANDBOX");
}

#[test]
fn bad_names_are_refused() {
    let error = Target::resolve(&args("/demo"), &Config::default(), &None).unwrap_err();
    assert_eq!(error.message(), "invalid SSH host name: \"\"");
    let error = Target::resolve(&args("-x/demo"), &Config::default(), &None).unwrap_err();
    assert_eq!(error.message(), "invalid SSH host name: \"-x\"");
    let error = Target::resolve(&args("demo\tx"), &Config::default(), &None).unwrap_err();
    assert_eq!(error.message(), "invalid sandbox name: \"demo\\tx\"");
    let error = Target::resolve(&args(""), &Config::default(), &None).unwrap_err();
    assert_eq!(error.message(), "invalid sandbox name: \"\"");
}

#[test]
fn sandbox_names_are_plain() {
    assert!(validate_sandbox_name("my-task.v1+2").is_ok());
    assert!(validate_sandbox_name("my_task").is_err());
    assert!(validate_sandbox_name("t\u{e4}sk").is_err());
    assert!(validate_sandbox_name("").is_err());
}
