//! Images on their way into the sandbox.

use sbc::clipboard::{encode_image, image_name, ImageData, TemporaryImage};
use sbc::target::{Location, Target};
use sbc::text::OsText;
use sbc::transfer::{
    receiver_script, session_directory, HelperEvent, HelperStep, TransferSession,
};

fn words(list: &[&str]) -> Vec<OsText> {
    list.iter().map(|word| OsText::from_text(word)).collect()
}

fn local() -> Target {
    Target {
        sandbox: "demo".to_owned(),
        location: Location::Local { sbx_command: "sbx".to_owned() },
    }
}

/// A helper that has said that it is ready.
fn serving(directory: &str) -> TransferSession {
    let (_, mut session) = TransferSession::start(&local(), directory.to_owned());
    let step = session.start_command(HelperEvent::Greeted("ready\n".to_owned()));
    assert!(matches!(step, HelperStep::Serve));
    session
}

#[test]
fn sandbox_artifacts_stay_in_tmp() {
    let image = ImageData {
        width: 1,
        height: 1,
        bytes: vec![0, 0, 0, 255],
    };
    assert!(encode_image(&image).is_ok());
    let name = image_name(4321, 1700000000000000000, 0);
    let temporary = TemporaryImage::new(OsText::from_text("/var/tmp/image"), name);
    let directory = session_directory(4321, 1700000000000000001);
    let session = serving(&directory);
    let path = session.acknowledge(&temporary, "ok\n").unwrap().path;
    assert!(path.starts_with("/tmp/sbc/"));
    assert!(path.rsplit('/').next().unwrap().starts_with("sbc-"));
    assert!(path.ends_with(".png"));
    assert_eq!(
        path,
        "/tmp/sbc/4321-1700000000000000001/sbc-4321-1700000000000000000-0.png"
    );
}

#[test]
fn the_script_names_its_directory() {
    let script = receiver_script("/tmp/sbc/1-2");
    assert_eq!(
        script,
        [
            "set -eu; directory=/tmp/sbc/1-2; mkdir -p \"$directory\"; ",
            "cleanup() { for file in \"$directory\"/*; do ",
            "[ ! -e \"$file\" ] || unlink \"$file\"; done; ",
            "rmdir \"$directory\" 2>/dev/null || true; }; ",
            "trap cleanup EXIT HUP INT TERM; printf 'ready\\n'; ",
            "while IFS=' ' read -r action name size; do ",
            "[ \"$action\" = put ] || exit 4; ",
            "case \"$name\" in ''|*[!A-Za-z0-9._-]*) exit 5;; esac; ",
            "head -c \"$size\" > \"$directory/$name\"; printf 'ok\\n'; done"
        ]
        .concat()
    );
    assert!(receiver_script("/tmp/a b").starts_with("set -eu; directory='/tmp/a b'; mkdir"));
}

#[test]
fn the_helper_runs_in_the_sandbox() {
    let directory = "/tmp/sbc/1-2";
    let script = receiver_script(directory);
    let (command, _) = TransferSession::start(&local(), directory.to_owned());
    assert_eq!(command.program, OsText::from_text("sbx"));
    assert_eq!(
        command.args,
        words(&["exec", "-i", "demo", "sh", "-c", &script])
    );

    let remote = Target {
        sandbox: "demo".to_owned(),
        location: Location::Remote {
            ssh_host: "build".to_owned(),
            sbx_command: "/opt/sbx".to_owned(),
        },
    };
    let (command, _) = TransferSession::start(&remote, directory.to_owned());
    assert_eq!(command.program, OsText::from_text("ssh"));
    assert_eq!(command.args[..3], words(&["-o", "BatchMode=yes", "build"])[..]);
    let quoted = format!("'{}'", script.replace('\'', "'\"'\"'"));
    assert_eq!(
        command.args[3],
        OsText::from_text(&format!("/opt/sbx exec -i demo sh -c {quoted}"))
    );
    assert_eq!(command.args.len(), 4);
}

#[test]
fn the_helper_has_to_be_ready() {
    let image = TemporaryImage::new(OsText::from_text("/t/a.png"), "a.png".to_owned());
    let (_, mut session) = TransferSession::start(&local(), "/tmp/sbc/1-2".to_owned());
    let step = session.start_command(HelperEvent::Started { input: true, output: true });
    assert!(matches!(step, HelperStep::ReadGreeting));
    assert!(session.upload(&image, 1).is_err());
    let step = session.start_command(HelperEvent::Greeted("ready\n".to_owned()));
    assert!(matches!(step, HelperStep::Serve));
    assert!(session.upload(&image, 1).is_ok());
    for line in ["", "ready", "ready\r\n", "error\n"] {
        let (_, mut session) = TransferSession::start(&local(), "/tmp/sbc/1-2".to_owned());
        let step = session.start_command(HelperEvent::Greeted(line.to_owned()));
        let HelperStep::Dismiss(error) = step else {
            panic!("expected a dismissal");
        };
        assert_eq!(
            error.message(),
            "image transfer helper did not become ready"
        );
    }
}

#[test]
fn a_helper_that_does_not_start_is_told_of() {
    for (event, message) in [
        (
            HelperEvent::NotStarted("not found".to_owned()),
            "could not start image transfer: not found",
        ),
        (
            HelperEvent::Started { input: false, output: true },
            "image transfer stdin unavailable",
        ),
        (
            HelperEvent::Started { input: true, output: false },
            "image transfer stdout unavailable",
        ),
        (HelperEvent::NotRead("broken".to_owned()), "broken"),
    ] {
        let (_, mut session) = TransferSession::start(&local(), "/tmp/sbc/1-2".to_owned());
        let HelperStep::Fail(error) = session.start_command(event) else {
            panic!("expected a failure");
        };
        assert_eq!(error.message(), message);
    }
}

#[test]
fn uploads_are_announced_and_acknowledged() {
    let image = TemporaryImage::new(OsText::from_text("/t/a.png"), "a.png".to_owned());
    let mut session = serving("/tmp/sbc/1-2");
    assert_eq!(session.upload(&image, 70).unwrap(), "put a.png 70\n");
    assert_eq!(
        session.acknowledge(&image, "ok\n").unwrap().path,
        "/tmp/sbc/1-2/a.png"
    );
    for answer in ["", "ok", "no\n"] {
        let error = session.acknowledge(&image, answer).unwrap_err();
        assert_eq!(
            error.message(),
            "image transfer helper did not acknowledge upload"
        );
    }
    session.close();
    let error = session.upload(&image, 70).unwrap_err();
    assert_eq!(error.message(), "image transfer helper is closed");
}

#[test]
fn images_are_reported_where_the_script_stores_them() {
    let directory = session_directory(7, 8);
    let (command, mut session) = TransferSession::start(&local(), directory);
    session.start_command(HelperEvent::Greeted("ready\n".to_owned()));
    let script = String::from_utf8(command.args[5].bytes.clone()).unwrap();
    assert!(script.starts_with("set -eu; directory=/tmp/sbc/7-8; "));
    for (suffix, size, line) in [
        (0, 70, "put sbc-7-9-0.png 70\n"),
        (1, 71, "put sbc-7-9-1.png 71\n"),
    ] {
        let name = image_name(7, 9, suffix);
        let image = TemporaryImage::new(OsText::from_text("/t/image"), name.clone());
        assert_eq!(session.upload(&image, size).unwrap(), line);
        let path = session.acknowledge(&image, "ok\n").unwrap().path;
        assert_eq!(path, format!("/tmp/sbc/7-8/{name}"));
    }
}
