//! The command that opens a session, and how words are quoted for a shell.

use vstd::prelude::*;
use vstd::string::*;
use vstd::utf8::*;

use crate::error::{Error, Failure};
use crate::target::{Location, LocationView, Target, TargetView};
use crate::text;
use crate::text::{characters, decode_text, is_alphanumeric, OsText};

verus! {

/// A program and its arguments.
#[derive(Clone, Debug, PartialEq, Eq)]
pub struct SessionCommand {
    pub program: OsText,
    pub args: Vec<OsText>,
}

#[verifier::ext_equal]
pub struct SessionCommandView {
    pub program: Seq<u8>,
    pub args: Seq<Seq<u8>>,
}

impl View for SessionCommand {
    type V = SessionCommandView;

    open spec fn view(&self) -> SessionCommandView {
        SessionCommandView { program: self.program@, args: text::os_texts(self.args@) }
    }
}

/// The characters that a shell takes into a word as they are.
pub open spec fn is_plain_char(c: char) -> bool {
    text::is_ascii_alphanumeric_char(c) || c == '_' || c == '@' || c == '%' || c == '+' || c == '='
        || c == ':' || c == ',' || c == '.' || c == '/' || c == '-'
}

pub open spec fn is_plain_word(s: Seq<char>) -> bool {
    s.len() > 0 && forall|i: int| 0 <= i < s.len() ==> is_plain_char(#[trigger] s[i])
}

/// An apostrophe within apostrophes: end the quotation, quote the apostrophe by
/// itself, go on.
pub open spec fn quoted_apostrophe() -> Seq<char> {
    seq!['\'', '"', '\'', '"', '\'']
}

/// `s` with every apostrophe quoted.
pub open spec fn apostrophes_quoted(s: Seq<char>) -> Seq<char>
    decreases s.len(),
{
    if s.len() == 0 {
        Seq::empty()
    } else if s.last() == '\'' {
        apostrophes_quoted(s.drop_last()) + quoted_apostrophe()
    } else {
        apostrophes_quoted(s.drop_last()).push(s.last())
    }
}

/// `s` as one word of a shell command: as it is where it is plain, and within
/// apostrophes otherwise.
pub open spec fn quoted(s: Seq<char>) -> Seq<char> {
    if is_plain_word(s) {
        s
    } else {
        seq!['\''] + apostrophes_quoted(s) + seq!['\'']
    }
}

/// The words, quoted, with a space between them.
pub open spec fn command_line(words: Seq<Seq<char>>) -> Seq<char>
    decreases words.len(),
{
    if words.len() == 0 {
        Seq::empty()
    } else if words.len() == 1 {
        quoted(words[0])
    } else {
        command_line(words.drop_last()) + seq![' '] + quoted(words.last())
    }
}

/// What sbx is asked to do: reconnect to the agent where there is no command,
/// and run the command otherwise.
pub open spec fn sbx_words(sandbox: Seq<char>, command: Seq<Seq<char>>) -> Seq<Seq<char>> {
    if command.len() == 0 {
        seq!["run"@, "--name"@, sandbox]
    } else {
        seq!["exec"@, "-it"@, sandbox] + command
    }
}

/// The arguments of a local sbx; the command is passed on byte for byte.
pub open spec fn local_args(sandbox: Seq<char>, command: Seq<Seq<u8>>) -> Seq<Seq<u8>> {
    if command.len() == 0 {
        seq![encode_utf8("run"@), encode_utf8("--name"@), encode_utf8(sandbox)]
    } else {
        seq![encode_utf8("exec"@), encode_utf8("-it"@), encode_utf8(sandbox)] + command
    }
}

/// All words are valid UTF-8.
pub open spec fn all_valid(command: Seq<Seq<u8>>) -> bool {
    forall|i: int| 0 <= i < command.len() ==> valid_utf8(#[trigger] command[i])
}

/// The texts of all words.
pub open spec fn decoded(command: Seq<Seq<u8>>) -> Seq<Seq<char>> {
    command.map_values(|w: Seq<u8>| decode_utf8(w))
}

/// The words of the command that SSH hands to the remote shell.
pub open spec fn remote_words(
    sbx: Seq<char>,
    sandbox: Seq<char>,
    command: Seq<Seq<u8>>,
) -> Seq<Seq<char>> {
    seq![sbx] + sbx_words(sandbox, decoded(command))
}

/// The command that opens a session; a remote one needs words in UTF-8.
pub open spec fn session_command(target: TargetView, command: Seq<Seq<u8>>) -> Option<
    SessionCommandView,
> {
    match target.location {
        LocationView::Local { sbx_command } => Some(
            SessionCommandView {
                program: encode_utf8(sbx_command),
                args: local_args(target.sandbox, command),
            },
        ),
        LocationView::Remote { ssh_host, sbx_command } => if all_valid(command) {
            Some(
                SessionCommandView {
                    program: encode_utf8("ssh"@),
                    args: seq![
                        encode_utf8("-t"@),
                        encode_utf8(ssh_host),
                        encode_utf8(
                            command_line(remote_words(sbx_command, target.sandbox, command)),
                        ),
                    ],
                },
            )
        } else {
            None
        },
    }
}

impl SessionCommand {
    /// The command that opens a session with `target`.
    pub fn for_target(target: &Target, command: &[OsText]) -> (r: Result<Self, Error>)
        ensures
            match session_command(target@, text::os_texts(command@)) {
                Some(expected) => r is Ok && r->Ok_0@ == expected,
                None => r is Err && r->Err_0 is RemoteArgumentNotUtf8,
            },
    {
        match &target.location {
            Location::Local { sbx_command } => Ok(
                SessionCommand {
                    program: OsText::from_text(sbx_command.as_str()),
                    args: sbx_args(target.sandbox.as_str(), command),
                },
            ),
            Location::Remote { ssh_host, sbx_command } => {
                match remote_sbx_command(
                    sbx_command.as_str(),
                    target.sandbox.as_str(),
                    command,
                ) {
                    Err(error) => Err(error),
                    Ok(remote) => {
                        let args: Vec<OsText> = vec![
                            OsText::from_text("-t"),
                            OsText::from_text(ssh_host.as_str()),
                            OsText::from_text(remote.as_str()),
                        ];
                        let r = SessionCommand { program: OsText::from_text("ssh"), args };
                        proof {
                            let expected = session_command(target@, text::os_texts(command@))->0;
                            assert(text::os_texts(args@) =~= expected.args);
                        }
                        Ok(r)
                    },
                }
            },
        }
    }
}

/// The arguments of a local sbx.
pub fn sbx_args(sandbox: &str, command: &[OsText]) -> (r: Vec<OsText>)
    ensures
        text::os_texts(r@) == local_args(sandbox@, text::os_texts(command@)),
{
    let ghost words = text::os_texts(command@);
    if command.len() == 0 {
        let r: Vec<OsText> = vec![
            OsText::from_text("run"),
            OsText::from_text("--name"),
            OsText::from_text(sandbox),
        ];
        assert(text::os_texts(r@) =~= local_args(sandbox@, words));
        r
    } else {
        let mut r: Vec<OsText> = vec![
            OsText::from_text("exec"),
            OsText::from_text("-it"),
            OsText::from_text(sandbox),
        ];
        let ghost start = text::os_texts(r@);
        assert(start =~= seq![encode_utf8("exec"@), encode_utf8("-it"@), encode_utf8(sandbox@)]);
        let mut i: usize = 0;
        while i < command.len()
            invariant
                i <= command@.len(),
                words == text::os_texts(command@),
                text::os_texts(r@) =~= start + words.take(i as int),
            decreases command@.len() - i,
        {
            let ghost before = text::os_texts(r@);
            r.push(command[i].clone());
            i += 1;
            proof {
                assert(text::os_texts(r@) =~= before.push(words[i - 1]));
            }
        }
        assert(words.take(command@.len() as int) =~= words);
        r
    }
}

/// Adds one word to a command line, quoted.
pub(crate) fn push_word(line: &mut String, word: &str, words: Ghost<Seq<Seq<char>>>)
    requires
        old(line)@ == command_line(words@),
        words@.len() > 0,
    ensures
        final(line)@ == command_line(words@.push(word@)),
{
    line.push(' ');
    let quoted_word = quote(word);
    line.append(quoted_word.as_str());
    proof {
        let longer = words@.push(word@);
        assert(longer.drop_last() =~= words@);
        assert(line@ =~= command_line(words@) + seq![' '] + quoted(word@));
    }
}

/// The command that SSH hands to the remote shell.
pub fn remote_sbx_command(sbx: &str, sandbox: &str, command: &[OsText]) -> (r: Result<
    String,
    Error,
>)
    ensures
        r is Ok <==> all_valid(text::os_texts(command@)),
        r matches Ok(line) ==> line@ == command_line(
            remote_words(sbx@, sandbox@, text::os_texts(command@)),
        ),
        r matches Err(e) ==> e is RemoteArgumentNotUtf8,
{
    let ghost raw = text::os_texts(command@);
    let mut line = quote(sbx);
    let ghost mut words = seq![sbx@];
    if command.len() == 0 {
        push_word(&mut line, "run", Ghost(words));
        proof {
            words = words.push("run"@);
        }
        push_word(&mut line, "--name", Ghost(words));
        proof {
            words = words.push("--name"@);
        }
        push_word(&mut line, sandbox, Ghost(words));
        proof {
            words = words.push(sandbox@);
            assert(words =~= remote_words(sbx@, sandbox@, raw));
        }
        return Ok(line);
    }
    push_word(&mut line, "exec", Ghost(words));
    proof {
        words = words.push("exec"@);
    }
    push_word(&mut line, "-it", Ghost(words));
    proof {
        words = words.push("-it"@);
    }
    push_word(&mut line, sandbox, Ghost(words));
    proof {
        words = words.push(sandbox@);
    }
    let ghost start = words;
    let mut i: usize = 0;
    while i < command.len()
        invariant
            i <= command@.len(),
            raw == text::os_texts(command@),
            start.len() == 4,
            line@ == command_line(words),
            words =~= start + decoded(raw).take(i as int),
            forall|j: int| 0 <= j < i ==> valid_utf8(#[trigger] raw[j]),
        decreases command@.len() - i,
    {
        assert(raw[i as int] == command@[i as int]@);
        let argument = match decode_text(command[i].bytes.as_slice()) {
            Ok(argument) => argument,
            Err(_) => {
                return Err(Failure::RemoteArgumentNotUtf8);
            },
        };
        push_word(&mut line, argument.as_str(), Ghost(words));
        proof {
            words = words.push(argument@);
        }
        i += 1;
    }
    proof {
        assert(decoded(raw).take(command@.len() as int) =~= decoded(raw));
        assert(words =~= remote_words(sbx@, sandbox@, raw));
    }
    Ok(line)
}

/// Quotes `value` as one word of a shell command.
pub fn quote(value: &str) -> (r: String)
    ensures
        r@ == quoted(value@),
{
    let letters = characters(value);
    let mut plain = letters.len() > 0;
    let mut escaped = String::new();
    let mut i: usize = 0;
    while i < letters.len()
        invariant
            letters@ == value@,
            i <= letters@.len(),
            plain <==> letters@.len() > 0 && forall|j: int|
                0 <= j < i ==> is_plain_char(#[trigger] letters@[j]),
            escaped@ == apostrophes_quoted(value@.take(i as int)),
        decreases letters@.len() - i,
    {
        let c = letters[i];
        proof {
            assert(value@.take(i + 1).drop_last() =~= value@.take(i as int));
        }
        if c == '\'' {
            escaped.append("'\"'\"'");
            proof {
                reveal_strlit("'\"'\"'");
                assert("'\"'\"'"@ =~= quoted_apostrophe());
            }
        } else {
            escaped.push(c);
        }
        plain = plain && (is_alphanumeric(c) || c == '_' || c == '@' || c == '%' || c == '+' || c
            == '=' || c == ':' || c == ',' || c == '.' || c == '/' || c == '-');
        i += 1;
    }
    proof {
        assert(value@.take(value@.len() as int) =~= value@);
    }
    if plain {
        return value.to_owned();
    }
    let mut r = String::new();
    r.push('\'');
    r.append(escaped.as_str());
    r.push('\'');
    assert(r@ =~= seq!['\''] + apostrophes_quoted(value@) + seq!['\'']);
    r
}

/// Text with its apostrophes quoted is at least as long, and the same where it
/// holds none.
proof fn lemma_apostrophes_quoted(s: Seq<char>)
    ensures
        apostrophes_quoted(s).len() >= s.len(),
        (forall|i: int| 0 <= i < s.len() ==> s[i] != '\'') ==> apostrophes_quoted(s) == s,
    decreases s.len(),
{
    if s.len() > 0 {
        lemma_apostrophes_quoted(s.drop_last());
        if forall|i: int| 0 <= i < s.len() ==> s[i] != '\'' {
            assert forall|i: int| 0 <= i < s.drop_last().len() implies s.drop_last()[i]
                != '\'' by {
                assert(s.drop_last()[i] == s[i]);
            }
            assert(apostrophes_quoted(s) =~= s);
        }
    } else {
        assert(apostrophes_quoted(s) =~= s);
    }
}

/// A word is left as it is if and only if it holds nothing but ASCII letters,
/// digits and `_@%+=:,./-`, and at least one of them. Any other word is put
/// between apostrophes.
pub proof fn law_quoting_adds_apostrophes(s: Seq<char>)
    ensures
        ({
            let bare = s.len() > 0 && forall|i: int|
                0 <= i < s.len() ==> {
                    ||| 'a' <= (#[trigger] s[i]) <= 'z'
                    ||| 'A' <= s[i] <= 'Z'
                    ||| '0' <= s[i] <= '9'
                    ||| seq!['_', '@', '%', '+', '=', ':', ',', '.', '/', '-'].contains(s[i])
                };
            &&& bare <==> quoted(s) == s
            &&& !bare ==> quoted(s).len() >= s.len() + 2 && quoted(s)[0] == '\'' && quoted(
                s,
            ).last() == '\''
        }),
{
    lemma_apostrophes_quoted(s);
    let others = seq!['_', '@', '%', '+', '=', ':', ',', '.', '/', '-'];
    assert(others[0] == '_' && others[1] == '@' && others[2] == '%' && others[3] == '+'
        && others[4] == '=' && others[5] == ':' && others[6] == ',' && others[7] == '.'
        && others[8] == '/' && others[9] == '-');
    assert forall|c: char| #[trigger] others.contains(c) <==> (c == '_' || c == '@' || c == '%' || c
        == '+' || c == '=' || c == ':' || c == ',' || c == '.' || c == '/' || c == '-') by {}
    assert forall|c: char| #[trigger] is_plain_char(c) <==> ('a' <= c <= 'z' || 'A' <= c <= 'Z'
        || '0' <= c <= '9' || others.contains(c)) by {}
    if is_plain_word(s) {
        assert forall|i: int| 0 <= i < s.len() implies {
            ||| 'a' <= (#[trigger] s[i]) <= 'z'
            ||| 'A' <= s[i] <= 'Z'
            ||| '0' <= s[i] <= '9'
            ||| others.contains(s[i])
        } by {
            assert(is_plain_char(s[i]));
        }
    }
}

/// Quoting goes on character by character: one more character that is no
/// apostrophe stands before the closing apostrophe as it is, and an apostrophe
/// as `'"'"'`. The empty word is two apostrophes.
pub proof fn law_quoting_goes_by_characters(s: Seq<char>, c: char)
    ensures
        quoted(Seq::empty()) == seq!['\'', '\''],
        quoted(s.push(c)) != s.push(c) ==> quoted(s.push(c)) == (if quoted(s) == s {
            seq!['\''] + s
        } else {
            quoted(s).drop_last()
        }) + (if c == '\'' {
            seq!['\'', '"', '\'', '"', '\'']
        } else {
            seq![c]
        }) + seq!['\''],
{
    assert(apostrophes_quoted(Seq::empty()) =~= Seq::empty());
    assert(quoted(Seq::empty()) =~= seq!['\'', '\'']);
    let longer = s.push(c);
    assert(longer.drop_last() =~= s);
    lemma_apostrophes_quoted(s);
    if is_plain_word(s) {
        assert forall|i: int| 0 <= i < s.len() implies s[i] != '\'' by {
            assert(is_plain_char(s[i]));
        }
    } else {
        assert(quoted(s).drop_last() =~= seq!['\''] + apostrophes_quoted(s));
        assert(quoted(s).len() > s.len());
    }
    if !is_plain_word(longer) {
        assert(quoted(longer) =~= (if quoted(s) == s {
            seq!['\''] + s
        } else {
            quoted(s).drop_last()
        }) + (if c == '\'' {
            seq!['\'', '"', '\'', '"', '\'']
        } else {
            seq![c]
        }) + seq!['\'']);
    }
}

/// A command line is its words, quoted, in their order, with one space between
/// each two.
pub proof fn law_command_line_joins_with_spaces(words: Seq<Seq<char>>, word: Seq<char>)
    ensures
        command_line(Seq::empty()) == Seq::<char>::empty(),
        command_line(seq![word]) == quoted(word),
        words.len() > 0 ==> command_line(words.push(word)) == command_line(words) + seq![' ']
            + quoted(word),
{
    if words.len() > 0 {
        assert(words.push(word).drop_last() =~= words);
    }
}

/// A local session runs the sbx command on this machine: `run --name SANDBOX`
/// without a command, and else `exec -it SANDBOX` and the command, byte for byte.
pub proof fn law_local_session_runs_sbx(
    sbx: Seq<char>,
    sandbox: Seq<char>,
    command: Seq<Seq<u8>>,
    i: int,
)
    ensures
        ({
            let target = TargetView {
                sandbox,
                location: LocationView::Local { sbx_command: sbx },
            };
            let found = session_command(target, command);
            &&& found is Some
            &&& found->0.program == encode_utf8(sbx)
            &&& found->0.args.len() == 3 + command.len()
            &&& found->0.args[2] == encode_utf8(sandbox)
            &&& command.len() == 0 ==> found->0.args[0] == encode_utf8("run"@)
                && found->0.args[1] == encode_utf8("--name"@)
            &&& command.len() > 0 ==> found->0.args[0] == encode_utf8("exec"@)
                && found->0.args[1] == encode_utf8("-it"@)
            &&& 0 <= i < command.len() ==> found->0.args[3 + i] == command[i]
        }),
{
}

/// A remote session runs `ssh -t HOST LINE` with the words of the sbx command in
/// the line: the same as on this machine, each word of the command decoded. It
/// fails if and only if one of those is not UTF-8.
pub proof fn law_remote_session_runs_ssh(
    ssh_host: Seq<char>,
    sbx: Seq<char>,
    sandbox: Seq<char>,
    command: Seq<Seq<u8>>,
    i: int,
)
    ensures
        ({
            let target = TargetView {
                sandbox,
                location: LocationView::Remote { ssh_host, sbx_command: sbx },
            };
            let found = session_command(target, command);
            let words = remote_words(sbx, sandbox, command);
            &&& found is None <==> exists|k: int|
                0 <= k < command.len() && !valid_utf8(#[trigger] command[k])
            &&& found matches Some(ssh) ==> ssh.program == encode_utf8("ssh"@) && ssh.args == seq![
                encode_utf8("-t"@),
                encode_utf8(ssh_host),
                encode_utf8(command_line(words)),
            ]
            &&& words.len() == 4 + command.len()
            &&& words[0] == sbx && words[3] == sandbox
            &&& command.len() == 0 ==> words[1] == "run"@ && words[2] == "--name"@
            &&& command.len() > 0 ==> words[1] == "exec"@ && words[2] == "-it"@
            &&& 0 <= i < command.len() ==> words[4 + i] == decode_utf8(command[i])
        }),
{
    assert(decoded(command).len() == command.len());
}

} // verus!
