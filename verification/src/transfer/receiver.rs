//! What the helper's script makes of the bytes that it is sent: a model of the
//! loop in that script. That a shell runs the script in this way is taken from
//! the shell, not proved.

use vstd::prelude::*;
use vstd::utf8::*;

use crate::session::ascii::{NEWLINE, SPACE};
use crate::session::keys;
use crate::text;
use crate::transfer;

verus! {

/// The bytes that the script accepts in a name.
pub open spec fn is_stored_name_byte(b: u8) -> bool {
    ||| 0x30 <= b <= 0x39
    ||| 0x41 <= b <= 0x5a
    ||| 0x61 <= b <= 0x7a
    ||| b == 0x2e
    ||| b == 0x5f
    ||| b == 0x2d
}

/// The name and the size that a line announces: the word `put`, a name that the
/// script accepts and a decimal number, with a space between them.
pub open spec fn announced(line: Seq<u8>) -> Option<(Seq<u8>, nat)> {
    let fields = keys::split_on(line, SPACE);
    if fields.len() == 3 && fields[0] == encode_utf8("put"@) && fields[1].len() > 0 && (
    forall|i: int| 0 <= i < fields[1].len() ==> is_stored_name_byte(#[trigger] fields[1][i]))
        && fields[2].len() > 0 && keys::all_digits(fields[2]) {
        Some((fields[1], keys::digits_value(fields[2])))
    } else {
        None
    }
}

/// The files that the script stores in `directory`, each with its path and its
/// bytes, where it is sent `stream`: it reads a line, takes as many bytes as that
/// announces into the file with the announced name, and goes on. Where it would
/// stop early, nothing is said (`None`).
pub open spec fn stored_files(directory: Seq<char>, stream: Seq<u8>) -> Option<
    Seq<(Seq<u8>, Seq<u8>)>,
>
    decreases stream.len(),
{
    if stream.len() == 0 {
        Some(Seq::empty())
    } else {
        let end = keys::first_index(stream, NEWLINE);
        match announced(stream.take(end)) {
            None => None,
            Some((name, size)) => {
                let body = end + 1;
                if 0 <= end && body + size <= stream.len() {
                    let file = (
                        encode_utf8(directory) + encode_utf8("/"@) + name,
                        stream.subrange(body, body + size),
                    );
                    match stored_files(directory, stream.skip(body + size)) {
                        Some(later) => Some(seq![file] + later),
                        None => None,
                    }
                } else {
                    None
                }
            },
        }
    }
}

/// The bytes that upload `images`, each with its name and its bytes, one after
/// the other.
pub open spec fn sent(images: Seq<(Seq<char>, Seq<u8>)>) -> Seq<u8>
    decreases images.len(),
{
    if images.len() == 0 {
        Seq::empty()
    } else {
        let (name, bytes) = images[0];
        encode_utf8(transfer::put_line(name, bytes.len())) + bytes + sent(images.skip(1))
    }
}

/// The images under the paths that are reported for them.
pub open spec fn as_reported(directory: Seq<char>, images: Seq<(Seq<char>, Seq<u8>)>) -> Seq<
    (Seq<u8>, Seq<u8>),
> {
    images.map_values(
        |image: (Seq<char>, Seq<u8>)|
            (encode_utf8(transfer::artifact_text(directory, image.0)), image.1),
    )
}

/// Two texts after each other are encoded one after the other.
proof fn lemma_encode_both(a: Seq<char>, b: Seq<char>)
    ensures
        encode_utf8(a + b) == encode_utf8(a) + encode_utf8(b),
    decreases a.len(),
{
    if a.len() == 0 {
        assert(a + b =~= b);
        assert(encode_utf8(a) + encode_utf8(b) =~= encode_utf8(b));
    } else {
        assert((a + b).drop_first() =~= a.drop_first() + b);
        lemma_encode_both(a.drop_first(), b);
        assert(encode_utf8(a + b) =~= encode_utf8(a) + encode_utf8(b));
    }
}

/// A field in front of the first separator is the first field.
proof fn lemma_split_first(first: Seq<u8>, rest: Seq<u8>, sep: u8)
    requires
        forall|i: int| 0 <= i < first.len() ==> #[trigger] first[i] != sep,
    ensures
        keys::split_on(first + seq![sep] + rest, sep) == seq![first] + keys::split_on(rest, sep),
{
    let s = first + seq![sep] + rest;
    keys::lemma_first_index(s, sep, first.len() as int);
    assert(s.take(first.len() as int) =~= first);
    assert(s.skip((first.len() + 1) as int) =~= rest);
}

proof fn lemma_split_last(last: Seq<u8>, sep: u8)
    requires
        forall|i: int| 0 <= i < last.len() ==> #[trigger] last[i] != sep,
    ensures
        keys::split_on(last, sep) == seq![last],
{
    keys::lemma_first_index(last, sep, last.len() as int);
}

/// A decimal notation is read as the number it was written for.
proof fn lemma_decimal_is_read_back(n: nat)
    ensures
        ({
            let digits = encode_utf8(text::decimal_text(n));
            digits.len() > 0 && keys::all_digits(digits) && keys::digits_value(digits) == n
        }),
    decreases n,
{
    let notation = text::decimal_text(n);
    let digits = encode_utf8(notation);
    text::lemma_decimal_digits(n);
    is_ascii_chars_encode_utf8(notation);
    assert forall|i: int| 0 <= i < digits.len() implies keys::is_digit(#[trigger] digits[i]) by {
        assert('0' <= notation[i] <= '9');
    }
    assert(digits.last() == notation.last() as u8);
    if n < 10 {
        assert(digits.drop_last() =~= Seq::<u8>::empty());
        assert(keys::digits_value(digits.drop_last()) == 0);
        assert(notation.last() == text::digit_char(n));
    } else {
        let front = text::decimal_text(n / 10);
        lemma_decimal_is_read_back(n / 10);
        text::lemma_decimal_digits(n / 10);
        is_ascii_chars_encode_utf8(front);
        assert(notation.last() == text::digit_char(n % 10));
        assert forall|i: int| 0 <= i < front.len() implies digits[i] == encode_utf8(front)[i] by {
            assert(notation[i] == front[i]);
        }
        assert(digits.drop_last() =~= encode_utf8(front));
    }
}

/// The line that announces an image is read as its name and its size.
proof fn lemma_announcement_is_read(name: Seq<char>, size: nat)
    requires
        transfer::is_stored_name(name),
    ensures
        ({
            let line = encode_utf8("put"@) + seq![SPACE] + encode_utf8(name) + seq![SPACE]
                + encode_utf8(text::decimal_text(size));
            &&& encode_utf8(transfer::put_line(name, size)) == line + seq![NEWLINE]
            &&& announced(line) == Some((encode_utf8(name), size))
            &&& forall|i: int| 0 <= i < line.len() ==> #[trigger] line[i] != NEWLINE
        }),
{
    reveal_strlit("put");
    reveal_strlit("put ");
    reveal_strlit(" ");
    reveal_strlit("\n");
    let notation = text::decimal_text(size);
    let word = encode_utf8("put"@);
    let named = encode_utf8(name);
    let digits = encode_utf8(notation);
    lemma_decimal_is_read_back(size);
    assert forall|i: int| 0 <= i < name.len() implies '\0' <= #[trigger] name[i] <= '\u{7f}' by {
        assert(transfer::is_stored_name_char(name[i]));
    }
    is_ascii_chars_encode_utf8(name);
    is_ascii_chars_encode_utf8("put"@);
    is_ascii_chars_encode_utf8(" "@);
    is_ascii_chars_encode_utf8("\n"@);
    assert(encode_utf8(" "@) =~= seq![SPACE]);
    assert(encode_utf8("\n"@) =~= seq![NEWLINE]);
    assert forall|i: int| 0 <= i < named.len() implies is_stored_name_byte(#[trigger] named[i]) by {
        assert(transfer::is_stored_name_char(name[i]));
        assert(named[i] == name[i] as u8);
    }
    assert forall|i: int| 0 <= i < word.len() implies #[trigger] word[i] != SPACE && word[i]
        != NEWLINE by {
        assert(word[i] == "put"@[i] as u8);
    }
    assert forall|i: int| 0 <= i < digits.len() implies #[trigger] digits[i] != SPACE && digits[i]
        != NEWLINE by {
        assert(keys::is_digit(digits[i]));
    }
    assert forall|i: int| 0 <= i < named.len() implies #[trigger] named[i] != SPACE && named[i]
        != NEWLINE by {
        assert(is_stored_name_byte(named[i]));
    }
    assert("put "@ =~= "put"@ + " "@);
    lemma_encode_both("put"@, " "@);
    lemma_encode_both("put "@, name);
    lemma_encode_both("put "@ + name, " "@);
    lemma_encode_both("put "@ + name + " "@, notation);
    lemma_encode_both("put "@ + name + " "@ + notation, "\n"@);
    let line = word + seq![SPACE] + named + seq![SPACE] + digits;
    let tail = named + seq![SPACE] + digits;
    assert(line =~= word + seq![SPACE] + tail);
    lemma_split_first(word, tail, SPACE);
    lemma_split_first(named, digits, SPACE);
    lemma_split_last(digits, SPACE);
    assert(keys::split_on(line, SPACE) =~= seq![word, named, digits]);
    assert forall|i: int| 0 <= i < line.len() implies #[trigger] line[i] != NEWLINE by {
        if i < word.len() {
            assert(line[i] == word[i]);
        } else if word.len() < i <= word.len() + named.len() {
            assert(line[i] == named[i - word.len() - 1]);
        } else if i > word.len() + named.len() + 1 {
            assert(line[i] == digits[i - word.len() - named.len() - 2]);
        }
    }
}

/// The helper stores exactly what it is sent: each of the images, byte for byte
/// and in order, under the path that is reported for it.
pub proof fn law_images_arrive_as_sent(directory: Seq<char>, images: Seq<(Seq<char>, Seq<u8>)>)
    requires
        forall|i: int|
            0 <= i < images.len() ==> transfer::is_stored_name((#[trigger] images[i]).0),
    ensures
        stored_files(directory, sent(images)) == Some(as_reported(directory, images)),
    decreases images.len(),
{
    if images.len() == 0 {
        assert(stored_files(directory, sent(images))->0 =~= as_reported(directory, images));
    } else {
        let (name, bytes) = images[0];
        let later = images.skip(1);
        let stream = sent(images);
        let line = encode_utf8("put"@) + seq![SPACE] + encode_utf8(name) + seq![SPACE]
            + encode_utf8(text::decimal_text(bytes.len()));
        assert(transfer::is_stored_name(images[0].0));
        lemma_announcement_is_read(name, bytes.len());
        assert(stream == line + seq![NEWLINE] + bytes + sent(later));
        let end = line.len() as int;
        assert forall|j: int| 0 <= j < end implies stream[j] != NEWLINE by {
            assert(stream[j] == line[j]);
        }
        keys::lemma_first_index(stream, NEWLINE, end);
        assert(stream.take(end) =~= line);
        assert(stream.subrange(end + 1, end + 1 + bytes.len()) =~= bytes);
        assert(stream.skip(end + 1 + bytes.len()) =~= sent(later));
        assert forall|i: int| 0 <= i < later.len() implies transfer::is_stored_name(
            (#[trigger] later[i]).0,
        ) by {
            assert(later[i] == images[i + 1]);
        }
        law_images_arrive_as_sent(directory, later);
        lemma_encode_both(directory, "/"@);
        lemma_encode_both(directory + "/"@, name);
        let file = (encode_utf8(transfer::artifact_text(directory, name)), bytes);
        assert(as_reported(directory, images) =~= seq![file] + as_reported(directory, later));
    }
}

} // verus!
