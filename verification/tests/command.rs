//! Commands and their quoting.

use sbc::command::{quote, remote_sbx_command, sbx_args, SessionCommand};
use sbc::target::{Location, Target};
use sbc::text::OsText;

fn words(list: &[&str]) -> Vec<OsText> {
    list.iter().map(|word| OsText::from_text(word)).collect()
}

#[test]
fn reconnects_to_agent_by_default() {
    let target = Target {
        sandbox: "demo".into(),
        location: Location::Local {
            sbx_command: "sbx".into(),
        },
    };
    let command = SessionCommand::for_target(&target, &[]).unwrap();
    assert_eq!(command.program, OsText::from_text("sbx"));
    assert_eq!(command.args, words(&["run", "--name", "demo"]));
}

#[test]
fn runs_command_inside_remote_sandbox() {
    let target = Target {
        sandbox: "demo".into(),
        location: Location::Remote {
            ssh_host: "build".into(),
            sbx_command: "/usr/bin/sbx".into(),
        },
    };
    let command =
        SessionCommand::for_target(&target, &words(&["sh", "-c", "printf '%s' hello"])).unwrap();
    assert_eq!(command.program, OsText::from_text("ssh"));
    assert_eq!(command.args[0], OsText::from_text("-t"));
    assert_eq!(command.args[1], OsText::from_text("build"));
    assert_eq!(
        command.args[2],
        OsText::from_text("/usr/bin/sbx exec -it demo sh -c 'printf '\"'\"'%s'\"'\"' hello'")
    );
}

#[test]
fn shell_quote_handles_apostrophes() {
    assert_eq!(quote("isn't"), "'isn'\"'\"'t'");
}

#[test]
fn plain_words_are_not_quoted() {
    assert_eq!(quote("user@host:/a_b-c.d,e+f=g%h"), "user@host:/a_b-c.d,e+f=g%h");
    assert_eq!(quote(""), "''");
    assert_eq!(quote("a b"), "'a b'");
    assert_eq!(quote("$HOME"), "'$HOME'");
    assert_eq!(quote("~"), "'~'");
    assert_eq!(quote("gr\u{fc}n"), "'gr\u{fc}n'");
    assert_eq!(quote("'"), "''\"'\"''");
}

#[test]
fn a_local_command_keeps_its_bytes() {
    let odd = OsText { bytes: vec![0xff, 0xfe] };
    let args = sbx_args("demo", &[odd.clone()]);
    assert_eq!(args[..3], words(&["exec", "-it", "demo"])[..]);
    assert_eq!(args[3], odd);
}

#[test]
fn a_remote_command_has_to_be_text() {
    let odd = OsText { bytes: vec![0xff] };
    let error = remote_sbx_command("sbx", "demo", &[odd]).unwrap_err();
    assert_eq!(error.message(), "remote command arguments must be valid UTF-8");
}

#[test]
fn a_remote_reconnection_names_the_sandbox() {
    let line = remote_sbx_command("/opt/my sbx", "demo", &[]).unwrap();
    assert_eq!(line, "'/opt/my sbx' run --name demo");
}

#[test]
fn remote_words_arrive_apart() {
    let line = remote_sbx_command("sbx", "demo", &words(&["", "a  b", "gr\u{fc}n"])).unwrap();
    assert_eq!(line, "sbx exec -it demo '' 'a  b' 'gr\u{fc}n'");
}
