//! What the command line asks for.

use vstd::prelude::*;
use vstd::string::*;
use vstd::utf8::*;

use crate::text;
use crate::text::OsText;

verus! {

/// The arguments of a connection.
#[derive(Debug)]
pub struct ConnectArgs {
    /// SSH host or configured host name.
    pub host: Option<String>,
    /// Connect through the local sbx daemon.
    pub local: bool,
    /// Disable Ctrl+V clipboard bridging.
    pub no_clipboard: bool,
    /// A specific configuration file.
    pub config: Option<OsText>,
    /// Sandbox name, or HOST/SANDBOX.
    pub sandbox: String,
    /// Command to run instead of reconnecting to the configured agent.
    pub command: Vec<OsText>,
}

#[derive(Debug)]
pub enum Invocation {
    Connect(ConnectArgs),
    Config(ConfigArgs),
}

/// The arguments of `sbc config`.
#[derive(Debug)]
pub struct ConfigArgs {
    /// A specific configuration file.
    pub config: Option<OsText>,
    pub action: ConfigAction,
}

#[derive(Debug)]
pub enum ConfigAction {
    /// Set the default SSH host.
    SetHost(String),
    /// Remove the default SSH host.
    ClearHost,
    /// Print the resolved configuration.
    Show,
    /// Print the configuration file path.
    Path,
}

pub enum ConfigActionView {
    SetHost(Seq<char>),
    ClearHost,
    Show,
    Path,
}

impl View for ConfigAction {
    type V = ConfigActionView;

    open spec fn view(&self) -> ConfigActionView {
        match *self {
            ConfigAction::SetHost(host) => ConfigActionView::SetHost(host@),
            ConfigAction::ClearHost => ConfigActionView::ClearHost,
            ConfigAction::Show => ConfigActionView::Show,
            ConfigAction::Path => ConfigActionView::Path,
        }
    }
}

/// The grammar that a command line is written in, with the words to parse by it.
#[derive(Debug)]
pub enum CommandLine {
    /// `sbc [OPTIONS] <SANDBOX> [-- <COMMAND>...]`
    Connect(Vec<OsText>),
    /// `sbc config <COMMAND>`, without the word `config`.
    Config(Vec<OsText>),
}

/// The first argument is the word `config`.
pub open spec fn asks_for_config(args: Seq<Seq<u8>>) -> bool {
    args.len() > 1 && args[1] == encode_utf8("config"@)
}

/// The grammar that a command line is written in, with the words to parse by it.
pub enum Grammar {
    Connect(Seq<Seq<u8>>),
    Config(Seq<Seq<u8>>),
}

/// The grammar of a command line. The word `config` is left out of what is parsed.
pub open spec fn grammar_of(args: Seq<Seq<u8>>) -> Grammar {
    if asks_for_config(args) {
        Grammar::Config(seq![args[0]] + args.skip(2))
    } else {
        Grammar::Connect(args)
    }
}

impl View for CommandLine {
    type V = Grammar;

    open spec fn view(&self) -> Grammar {
        match *self {
            CommandLine::Connect(words) => Grammar::Connect(text::os_texts(words@)),
            CommandLine::Config(words) => Grammar::Config(text::os_texts(words@)),
        }
    }
}

/// Whether `arg` is the text `word`.
fn is_word(arg: &OsText, word: &str) -> (r: bool)
    ensures
        r == (arg@ == encode_utf8(word@)),
{
    let expected = word.as_bytes_vec();
    if arg.bytes.len() != expected.len() {
        return false;
    }
    let mut i: usize = 0;
    while i < expected.len()
        invariant
            i <= expected@.len(),
            expected@.len() == arg.bytes@.len(),
            expected@ == encode_utf8(word@),
            forall|j: int| 0 <= j < i ==> arg.bytes@[j] == expected@[j],
        decreases expected@.len() - i,
    {
        if arg.bytes[i] != expected[i] {
            return false;
        }
        i += 1;
    }
    assert(arg.bytes@ =~= expected@);
    true
}

/// Tells the two grammars apart: after the program name, the word `config`
/// asks for the configuration commands, and is left out of what they parse.
pub fn parse_from(args: Vec<OsText>) -> (r: CommandLine)
    ensures
        r@ == grammar_of(text::os_texts(args@)),
        ({
            let words = text::os_texts(args@);
            match r {
                CommandLine::Config(rest) => asks_for_config(words) && text::os_texts(rest@)
                    == seq![words[0]] + words.skip(2),
                CommandLine::Connect(all) => !asks_for_config(words) && text::os_texts(all@)
                    == words,
            }
        }),
{
    let ghost words = text::os_texts(args@);
    if args.len() > 1 && is_word(&args[1], "config") {
        let mut rest: Vec<OsText> = Vec::new();
        rest.push(args[0].clone());
        let mut i: usize = 2;
        while i < args.len()
            invariant
                2 <= i <= args@.len(),
                words == text::os_texts(args@),
                text::os_texts(rest@) =~= seq![words[0]] + words.subrange(2, i as int),
            decreases args@.len() - i,
        {
            let ghost before = text::os_texts(rest@);
            rest.push(args[i].clone());
            i += 1;
            proof {
                assert(text::os_texts(rest@) =~= before.push(words[i - 1]));
            }
        }
        assert(words.subrange(2, args@.len() as int) =~= words.skip(2));
        CommandLine::Config(rest)
    } else {
        CommandLine::Connect(args)
    }
}

/// After the program's name `program`, the word `config` hands the words behind it
/// to the configuration grammar, however many they are. Every other line goes to
/// the connection grammar as it is: one without a first argument, and one whose
/// first argument is another word.
pub proof fn law_config_chooses_the_grammar(
    program: Seq<u8>,
    first: Seq<u8>,
    rest: Seq<Seq<u8>>,
)
    ensures
        grammar_of(seq![program, encode_utf8("config"@)] + rest) == Grammar::Config(
            seq![program] + rest,
        ),
        first != encode_utf8("config"@) ==> grammar_of(seq![program, first] + rest)
            == Grammar::Connect(seq![program, first] + rest),
        grammar_of(seq![program]) == Grammar::Connect(seq![program]),
        grammar_of(Seq::empty()) == Grammar::Connect(Seq::empty()),
{
    let line = seq![program, encode_utf8("config"@)] + rest;
    assert(line[1] == encode_utf8("config"@));
    assert(seq![line[0]] + line.skip(2) =~= seq![program] + rest);
    let other = seq![program, first] + rest;
    assert(other[1] == first);
}

} // verus!
