//! How a POSIX shell reads the command lines that are sent to it.

use vstd::prelude::*;

use crate::command;
use crate::config::ConfigView;
use crate::target;
use crate::target::LocationView;
use crate::text;

verus! {

/// Where the shell is within a command line.
pub enum Quotes {
    Outside,
    Single,
    Double,
}

/// The characters that keep a meaning within double quotes.
pub open spec fn is_special_in_double_quotes(c: char) -> bool {
    c == '$' || c == '`' || c == '\\' || c == '!'
}

/// The characters that a shell takes into a word as they are, wherever in the word
/// they stand and without quotes. All others may match file names, expand, begin
/// a comment, join commands or end a word.
pub open spec fn is_literal_char(c: char) -> bool {
    ||| 'a' <= c <= 'z'
    ||| 'A' <= c <= 'Z'
    ||| '0' <= c <= '9'
    ||| c == '%'
    ||| c == '+'
    ||| c == ','
    ||| c == '-'
    ||| c == '.'
    ||| c == '/'
    ||| c == ':'
    ||| c == '='
    ||| c == '@'
    ||| c == '_'
}

/// The words before `line`, and then those that a shell splits `line` into.
/// `word` is the word begun so far. Where a character does not simply join a word
/// or end one, or a quotation does not end, nothing is said (`None`).
pub open spec fn split_from(
    line: Seq<char>,
    quotes: Quotes,
    word: Option<Seq<char>>,
    words: Seq<Seq<char>>,
) -> Option<Seq<Seq<char>>>
    decreases line.len(),
{
    if line.len() == 0 {
        match (quotes, word) {
            (Quotes::Outside, None) => Some(words),
            (Quotes::Outside, Some(last)) => Some(words.push(last)),
            _ => None,
        }
    } else {
        let c = line[0];
        let rest = line.skip(1);
        let begun = match word {
            Some(w) => w,
            None => Seq::empty(),
        };
        match quotes {
            Quotes::Outside => if c == ' ' {
                match word {
                    None => split_from(rest, Quotes::Outside, None, words),
                    Some(w) => split_from(rest, Quotes::Outside, None, words.push(w)),
                }
            } else if c == '\'' {
                split_from(rest, Quotes::Single, Some(begun), words)
            } else if c == '"' {
                split_from(rest, Quotes::Double, Some(begun), words)
            } else if is_literal_char(c) {
                split_from(rest, Quotes::Outside, Some(begun.push(c)), words)
            } else {
                None
            },
            Quotes::Single => if c == '\'' {
                split_from(rest, Quotes::Outside, word, words)
            } else {
                split_from(rest, Quotes::Single, Some(begun.push(c)), words)
            },
            Quotes::Double => if c == '"' {
                split_from(rest, Quotes::Outside, word, words)
            } else if is_special_in_double_quotes(c) {
                None
            } else {
                split_from(rest, Quotes::Double, Some(begun.push(c)), words)
            },
        }
    }
}

/// The words that a shell splits `line` into. This covers the splitting only, and
/// not what the first word is then taken for: see [`simple_command`].
pub open spec fn shell_words(line: Seq<char>) -> Option<Seq<Seq<char>>> {
    split_from(line, Quotes::Outside, None, Seq::empty())
}

/// The words that a shell takes for a part of its grammar where they stand first
/// and unquoted, and that hold plain characters only. Some of them belong to
/// certain shells.
pub open spec fn is_reserved_word(s: Seq<char>) -> bool {
    ||| s == "if"@
    ||| s == "then"@
    ||| s == "else"@
    ||| s == "elif"@
    ||| s == "fi"@
    ||| s == "do"@
    ||| s == "done"@
    ||| s == "case"@
    ||| s == "esac"@
    ||| s == "while"@
    ||| s == "until"@
    ||| s == "for"@
    ||| s == "in"@
    ||| s == "function"@
    ||| s == "select"@
    ||| s == "time"@
    ||| s == "coproc"@
}

/// The characters of a variable's name.
pub open spec fn is_name_char(c: char) -> bool {
    text::is_ascii_alphanumeric_char(c) || c == '_'
}

/// The name of a variable.
pub open spec fn is_name(s: Seq<char>) -> bool {
    &&& s.len() > 0
    &&& !('0' <= s[0] <= '9')
    &&& forall|i: int| 0 <= i < s.len() ==> is_name_char(#[trigger] s[i])
}

/// `s` starts with a variable's name and `=`, or `+=`, which ends at position `i`.
pub open spec fn assigns_at(s: Seq<char>, i: int) -> bool {
    &&& 0 < i < s.len()
    &&& s[i] == '='
    &&& is_name(s.take(i)) || (s[i - 1] == '+' && is_name(s.take(i - 1)))
}

/// `s` starts as an assignment does.
pub open spec fn starts_assignment(s: Seq<char>) -> bool {
    exists|i: int| assigns_at(s, i)
}

/// The program and the arguments of a line that is one simple command. Nothing
/// is said (`None`) of a line that starts with an assignment, or whose first word
/// is reserved and does not start with a quotation.
pub open spec fn simple_command(line: Seq<char>) -> Option<Seq<Seq<char>>> {
    match shell_words(line) {
        Some(words) => if words.len() == 0 || line[0] == ' ' || starts_assignment(line) || (
        line[0] != '\'' && line[0] != '"' && is_reserved_word(words[0])) {
            None
        } else {
            Some(words)
        },
        None => None,
    }
}

/// A first word that is quoted, or that a shell takes neither for an assignment
/// nor for a part of its grammar.
pub open spec fn names_a_program(s: Seq<char>) -> bool {
    command::is_plain_word(s) ==> !starts_assignment(s) && !is_reserved_word(s)
}

/// Plain characters join the word begun.
proof fn lemma_plain(
    s: Seq<char>,
    rest: Seq<char>,
    word: Option<Seq<char>>,
    words: Seq<Seq<char>>,
)
    requires
        s.len() > 0,
        forall|i: int| 0 <= i < s.len() ==> command::is_plain_char(#[trigger] s[i]),
    ensures
        split_from(s + rest, Quotes::Outside, word, words) == split_from(
            rest,
            Quotes::Outside,
            Some(
                match word {
                    Some(w) => w + s,
                    None => s,
                },
            ),
            words,
        ),
    decreases s.len(),
{
    let begun = match word {
        Some(w) => w,
        None => Seq::empty(),
    };
    assert((s + rest)[0] == s[0]);
    assert(command::is_plain_char(s[0]));
    assert((s + rest).skip(1) =~= s.skip(1) + rest);
    assert(begun.push(s[0]) + s.skip(1) =~= begun + s);
    assert(Seq::<char>::empty() + s =~= s);
    if s.len() == 1 {
        assert(s.skip(1) + rest =~= rest);
        assert(begun.push(s[0]) =~= begun + s);
    } else {
        assert forall|i: int| 0 <= i < s.skip(1).len() implies command::is_plain_char(
            #[trigger] s.skip(1)[i],
        ) by {
            assert(s.skip(1)[i] == s[i + 1]);
        }
        lemma_plain(s.skip(1), rest, Some(begun.push(s[0])), words);
    }
}

/// A quoted apostrophe, read within apostrophes, is an apostrophe.
proof fn lemma_quoted_apostrophe(rest: Seq<char>, word: Seq<char>, words: Seq<Seq<char>>)
    ensures
        split_from(command::quoted_apostrophe() + rest, Quotes::Single, Some(word), words)
            == split_from(rest, Quotes::Single, Some(word.push('\'')), words),
{
    let s0 = command::quoted_apostrophe() + rest;
    let s1 = s0.skip(1);
    let s2 = s1.skip(1);
    let s3 = s2.skip(1);
    let s4 = s3.skip(1);
    assert(s4.skip(1) =~= rest);
    assert(s0[0] == '\'' && s1[0] == '"' && s2[0] == '\'' && s3[0] == '"' && s4[0] == '\'');
    assert(split_from(s0, Quotes::Single, Some(word), words) == split_from(
        s1,
        Quotes::Outside,
        Some(word),
        words,
    ));
    assert(split_from(s1, Quotes::Outside, Some(word), words) == split_from(
        s2,
        Quotes::Double,
        Some(word),
        words,
    ));
    assert(split_from(s2, Quotes::Double, Some(word), words) == split_from(
        s3,
        Quotes::Double,
        Some(word.push('\'')),
        words,
    ));
    assert(split_from(s3, Quotes::Double, Some(word.push('\'')), words) == split_from(
        s4,
        Quotes::Outside,
        Some(word.push('\'')),
        words,
    ));
}

/// Text with its apostrophes quoted, read within apostrophes, is the text.
proof fn lemma_within_apostrophes(
    s: Seq<char>,
    rest: Seq<char>,
    word: Seq<char>,
    words: Seq<Seq<char>>,
)
    ensures
        split_from(command::apostrophes_quoted(s) + rest, Quotes::Single, Some(word), words)
            == split_from(rest, Quotes::Single, Some(word + s), words),
    decreases s.len(),
{
    if s.len() == 0 {
        assert(command::apostrophes_quoted(s) + rest =~= rest);
        assert(word + s =~= word);
    } else {
        let front = s.drop_last();
        assert((word + front).push(s.last()) =~= word + s);
        if s.last() == '\'' {
            assert(command::apostrophes_quoted(s) + rest =~= command::apostrophes_quoted(front) + (
            command::quoted_apostrophe() + rest));
            lemma_within_apostrophes(front, command::quoted_apostrophe() + rest, word, words);
            lemma_quoted_apostrophe(rest, word + front, words);
        } else {
            let tail = seq![s.last()] + rest;
            assert(command::apostrophes_quoted(s) + rest =~= command::apostrophes_quoted(front)
                + tail);
            lemma_within_apostrophes(front, tail, word, words);
            assert(tail.skip(1) =~= rest);
        }
    }
}

/// A quoted word is read as the word.
proof fn lemma_quoted_word(s: Seq<char>, rest: Seq<char>, words: Seq<Seq<char>>)
    ensures
        split_from(command::quoted(s) + rest, Quotes::Outside, None, words) == split_from(
            rest,
            Quotes::Outside,
            Some(s),
            words,
        ),
{
    if command::is_plain_word(s) {
        lemma_plain(s, rest, None, words);
    } else {
        let line = command::quoted(s) + rest;
        let closed = seq!['\''] + rest;
        assert(line.skip(1) =~= command::apostrophes_quoted(s) + closed);
        assert(line[0] == '\'');
        lemma_within_apostrophes(s, closed, Seq::empty(), words);
        assert(closed.skip(1) =~= rest);
        assert(Seq::<char>::empty() + s =~= s);
    }
}

/// The words of a command line are read one after the other.
proof fn lemma_command_line(words: Seq<Seq<char>>, rest: Seq<char>)
    requires
        words.len() > 0,
    ensures
        split_from(
            command::command_line(words) + rest,
            Quotes::Outside,
            None,
            Seq::empty(),
        ) == split_from(rest, Quotes::Outside, Some(words.last()), words.drop_last()),
    decreases words.len(),
{
    if words.len() == 1 {
        lemma_quoted_word(words[0], rest, Seq::empty());
        assert(words.drop_last() =~= Seq::<Seq<char>>::empty());
    } else {
        let front = words.drop_last();
        let tail = command::quoted(words.last()) + rest;
        let spaced = seq![' '] + tail;
        assert(command::command_line(words) + rest =~= command::command_line(front) + spaced);
        lemma_command_line(front, spaced);
        assert(spaced.skip(1) =~= tail);
        assert(front.drop_last().push(front.last()) =~= front);
        lemma_quoted_word(words.last(), rest, front);
    }
}

/// Quoting keeps a word whole: a shell reads the quoted text as that one word,
/// whatever characters it holds.
pub proof fn law_quoting_keeps_a_word(s: Seq<char>)
    ensures
        shell_words(command::quoted(s)) == Some(seq![s]),
{
    lemma_quoted_word(s, Seq::empty(), Seq::empty());
    assert(command::quoted(s) + Seq::<char>::empty() =~= command::quoted(s));
    assert(Seq::<Seq<char>>::empty().push(s) =~= seq![s]);
}

/// A command line comes apart into exactly the words it was made of.
pub proof fn law_command_line_keeps_its_words(words: Seq<Seq<char>>)
    ensures
        shell_words(command::command_line(words)) == Some(words),
{
    if words.len() == 0 {
        assert(shell_words(command::command_line(words))->0 =~= words);
    } else {
        lemma_command_line(words, Seq::empty());
        let line = command::command_line(words);
        assert(line + Seq::<char>::empty() =~= line);
        assert(words.drop_last().push(words.last()) =~= words);
    }
}

/// The first word of a command line decides how it starts: what follows it is
/// part of no assignment.
proof fn lemma_no_assignment(first: Seq<char>, rest: Seq<char>)
    requires
        names_a_program(first),
        rest.len() == 0 || rest[0] == ' ',
    ensures
        !starts_assignment(command::quoted(first) + rest),
        (command::quoted(first) + rest).len() > 0,
        (command::quoted(first) + rest)[0] != ' ',
        (command::quoted(first) + rest)[0] == '\'' || !is_reserved_word(first),
{
    let word = command::quoted(first);
    let line = word + rest;
    assert(line[0] == word[0]);
    if command::is_plain_word(first) {
        assert(command::is_plain_char(first[0]));
        if starts_assignment(line) {
            let i = choose|i: int| assigns_at(line, i);
            if i < first.len() {
                assert(line.take(i) =~= first.take(i));
                assert(line.take(i - 1) =~= first.take(i - 1));
                assert(assigns_at(first, i));
            } else {
                assert(line[first.len() as int] == ' ');
                assert(i > first.len());
                if is_name(line.take(i)) {
                    assert(line.take(i)[first.len() as int] == ' ');
                } else if i - 1 > first.len() {
                    assert(line.take(i - 1)[first.len() as int] == ' ');
                }
            }
        }
    } else if starts_assignment(line) {
        let i = choose|i: int| assigns_at(line, i);
        if is_name(line.take(i)) {
            assert(is_name_char(line.take(i)[0]));
        } else {
            assert(is_name_char(line.take(i - 1)[0]));
        }
    }
}

/// A command line starts with its first word, quoted.
proof fn lemma_first_word(words: Seq<Seq<char>>) -> (rest: Seq<char>)
    requires
        words.len() > 0,
    ensures
        command::command_line(words) == command::quoted(words[0]) + rest,
        rest.len() == 0 || rest[0] == ' ',
    decreases words.len(),
{
    if words.len() == 1 {
        assert(command::command_line(words) =~= command::quoted(words[0]) + Seq::<char>::empty());
        Seq::empty()
    } else {
        let front = lemma_first_word(words.drop_last());
        let rest = front + seq![' '] + command::quoted(words.last());
        assert(command::command_line(words) =~= command::quoted(words[0]) + rest);
        rest
    }
}

/// A command line runs exactly the program that its first word names, with the
/// other words as its arguments.
pub proof fn law_command_line_is_one_command(words: Seq<Seq<char>>)
    requires
        words.len() > 0,
        names_a_program(words[0]),
    ensures
        simple_command(command::command_line(words)) == Some(words),
{
    law_command_line_keeps_its_words(words);
    let rest = lemma_first_word(words);
    lemma_no_assignment(words[0], rest);
}

/// The line that SSH hands to the remote shell runs the sbx command with the
/// words for it: each argument of the command is one word, as it was typed.
pub proof fn law_remote_command_arrives(
    sbx: Seq<char>,
    sandbox: Seq<char>,
    command: Seq<Seq<u8>>,
)
    requires
        names_a_program(sbx),
    ensures
        simple_command(command::command_line(command::remote_words(sbx, sandbox, command)))
            == Some(seq![sbx] + command::sbx_words(sandbox, command::decoded(command))),
{
    law_command_line_is_one_command(command::remote_words(sbx, sandbox, command));
}

proof fn lemma_sbx_names_a_program()
    ensures
        names_a_program("sbx"@),
{
    reveal_strlit("sbx");
    reveal_strlit("if");
    reveal_strlit("then");
    reveal_strlit("else");
    reveal_strlit("elif");
    reveal_strlit("fi");
    reveal_strlit("do");
    reveal_strlit("done");
    reveal_strlit("case");
    reveal_strlit("esac");
    reveal_strlit("while");
    reveal_strlit("until");
    reveal_strlit("for");
    reveal_strlit("in");
    reveal_strlit("function");
    reveal_strlit("select");
    reveal_strlit("time");
    reveal_strlit("coproc");
    assert("for"@[0] == 'f');
    assert("sbx"@[0] == 's');
    if starts_assignment("sbx"@) {
        let i = choose|i: int| assigns_at("sbx"@, i);
        assert("sbx"@[i] != '=');
    }
}

/// Every location runs a program for sbx, as long as the configuration names no
/// sbx command that a shell takes for something else.
pub proof fn law_locations_name_a_program(host: Option<Seq<char>>, config: ConfigView)
    requires
        forall|name: Seq<char>| #[trigger]
            config.hosts.contains_key(name) ==> (config.hosts[name].sbx_command matches Some(sbx)
                ==> names_a_program(sbx)),
    ensures
        target::location_of(host, config) matches Ok(location) ==> match location {
            LocationView::Local { sbx_command } => names_a_program(sbx_command),
            LocationView::Remote { ssh_host, sbx_command } => names_a_program(sbx_command),
        },
{
    lemma_sbx_names_a_program();
}

/// No shell finds a meaning of its own outside quotes in a quoted word: a bare
/// word holds literal characters only.
pub proof fn law_bare_words_are_literal(s: Seq<char>, i: int)
    requires
        0 <= i < s.len(),
        !is_literal_char(s[i]),
    ensures
        command::quoted(s)[0] == '\'' && command::quoted(s).last() == '\'',
        command::quoted(s) != s,
{
    assert(!command::is_plain_char(s[i]));
    command::law_quoting_adds_apostrophes(s);
}

} // verus!
