//! Escaping of values.
//!
//! A value on the wire holds no blank, no list separator and no control
//! character that ends a line: each of them is written as a backslash and a
//! letter.

use vstd::prelude::*;

use crate::parser::text;

verus! {

/// The letter that stands for `c` behind a backslash; `None` if `c` is written
/// as it is.
pub open spec fn letter_of(c: char) -> Option<char> {
    if c == '\\' {
        Some('\\')
    } else if c == '/' {
        Some('/')
    } else if c == ' ' {
        Some('s')
    } else if c == '|' {
        Some('p')
    } else if c == '\u{7}' {
        Some('a')
    } else if c == '\u{8}' {
        Some('b')
    } else if c == '\u{c}' {
        Some('f')
    } else if c == '\n' {
        Some('n')
    } else if c == '\r' {
        Some('r')
    } else if c == '\t' {
        Some('t')
    } else if c == '\u{b}' {
        Some('v')
    } else {
        None
    }
}

/// The character that a backslash and `letter` stand for.
pub open spec fn char_of(letter: char) -> Option<char> {
    if letter == '\\' {
        Some('\\')
    } else if letter == '/' {
        Some('/')
    } else if letter == 's' {
        Some(' ')
    } else if letter == 'p' {
        Some('|')
    } else if letter == 'a' {
        Some('\u{7}')
    } else if letter == 'b' {
        Some('\u{8}')
    } else if letter == 'f' {
        Some('\u{c}')
    } else if letter == 'n' {
        Some('\n')
    } else if letter == 'r' {
        Some('\r')
    } else if letter == 't' {
        Some('\t')
    } else if letter == 'v' {
        Some('\u{b}')
    } else {
        None
    }
}

/// How one character is written inside a value.
pub open spec fn escape_one(c: char) -> Seq<char> {
    match letter_of(c) {
        Some(letter) => seq!['\\', letter],
        None => seq![c],
    }
}

/// How a value is written on the wire.
pub open spec fn escaped(value: Seq<char>) -> Seq<char>
    decreases value.len(),
{
    if value.len() == 0 {
        Seq::empty()
    } else {
        escaped(value.drop_last()) + escape_one(value.last())
    }
}

/// The value that `raw` is the written form of; `None` if a backslash in it is
/// followed by nothing or by a letter that stands for no character.
pub open spec fn unescaped(raw: Seq<char>) -> Option<Seq<char>>
    decreases raw.len(),
{
    if raw.len() == 0 {
        Some(Seq::empty())
    } else if raw[0] != '\\' {
        match unescaped(raw.skip(1)) {
            Some(rest) => Some(seq![raw[0]] + rest),
            None => None,
        }
    } else if raw.len() == 1 {
        None
    } else {
        match (char_of(raw[1]), unescaped(raw.skip(2))) {
            (Some(c), Some(rest)) => Some(seq![c] + rest),
            _ => None,
        }
    }
}

/// `value` with `prefix` in front of it.
pub open spec fn prepended(prefix: Seq<char>, value: Option<Seq<char>>) -> Option<Seq<char>> {
    match value {
        Some(rest) => Some(prefix + rest),
        None => None,
    }
}

fn letter_for(c: char) -> (letter: Option<char>)
    ensures
        letter == letter_of(c),
{
    match c {
        '\\' => Some('\\'),
        '/' => Some('/'),
        ' ' => Some('s'),
        '|' => Some('p'),
        '\u{7}' => Some('a'),
        '\u{8}' => Some('b'),
        '\u{c}' => Some('f'),
        '\n' => Some('n'),
        '\r' => Some('r'),
        '\t' => Some('t'),
        '\u{b}' => Some('v'),
        _ => None,
    }
}

fn char_for(letter: char) -> (c: Option<char>)
    ensures
        c == char_of(letter),
{
    match letter {
        '\\' => Some('\\'),
        '/' => Some('/'),
        's' => Some(' '),
        'p' => Some('|'),
        'a' => Some('\u{7}'),
        'b' => Some('\u{8}'),
        'f' => Some('\u{c}'),
        'n' => Some('\n'),
        'r' => Some('\r'),
        't' => Some('\t'),
        'v' => Some('\u{b}'),
        _ => None,
    }
}

/// Appends the written form of `value` to `line`.
pub fn escape_into(value: &str, line: &mut String)
    ensures
        final(line)@ == old(line)@ + escaped(value@),
{
    let chars: Vec<char> = text::to_chars(value);
    let mut i: usize = 0;
    while i < chars.len()
        invariant
            chars@ == value@,
            i <= chars@.len(),
            line@ == old(line)@ + escaped(value@.take(i as int)),
        decreases chars@.len() - i,
    {
        let c: char = chars[i];
        match letter_for(c) {
            Some(letter) => {
                line.push('\\');
                line.push(letter);
            },
            None => {
                line.push(c);
            },
        }
        i += 1;
        proof {
            assert(value@.take(i as int).drop_last() == value@.take(i - 1));
            assert(line@ == old(line)@ + (escaped(value@.take(i - 1)) + escape_one(c)));
        }
    }
    assert(value@.take(i as int) == value@);
}

/// Reads a value back from its written form.
pub fn unescape(raw: &[char]) -> (value: Option<String>)
    ensures
        match value {
            Some(value) => unescaped(raw@) == Some(value@),
            None => unescaped(raw@) is None,
        },
{
    let mut value: String = String::new();
    let mut i: usize = 0;
    assert(raw@.skip(0) == raw@);
    while i < raw.len()
        invariant
            i <= raw@.len(),
            unescaped(raw@) == prepended(value@, unescaped(raw@.skip(i as int))),
        decreases raw@.len() - i,
    {
        let ghost rest = raw@.skip(i as int);
        let ghost done = value@;
        if raw[i] != '\\' {
            value.push(raw[i]);
            i += 1;
            proof {
                assert(rest.skip(1) == raw@.skip(i as int));
                if let Some(tail) = unescaped(rest.skip(1)) {
                    assert(done + (seq![rest[0]] + tail) == done.push(rest[0]) + tail);
                }
            }
        } else if i + 1 == raw.len() {
            return None;
        } else {
            match char_for(raw[i + 1]) {
                None => {
                    return None;
                },
                Some(c) => {
                    value.push(c);
                    i += 2;
                    proof {
                        assert(rest.skip(2) == raw@.skip(i as int));
                        if let Some(tail) = unescaped(rest.skip(2)) {
                            assert(done + (seq![c] + tail) == done.push(c) + tail);
                        }
                    }
                },
            }
        }
    }
    assert(raw@.skip(i as int) == Seq::<char>::empty());
    assert(value@ + Seq::<char>::empty() == value@);
    Some(value)
}

proof fn lemma_unescape_step(c: char, rest: Seq<char>)
    ensures
        unescaped(escape_one(c) + rest) == prepended(seq![c], unescaped(rest)),
{
    let s = escape_one(c) + rest;
    match letter_of(c) {
        Some(letter) => {
            assert(s.skip(2) == rest);
        },
        None => {
            assert(s.skip(1) == rest);
        },
    }
}

proof fn lemma_unescape_prefix(value: Seq<char>, rest: Seq<char>)
    ensures
        unescaped(escaped(value) + rest) == prepended(value, unescaped(rest)),
    decreases value.len(),
{
    if value.len() == 0 {
        assert(escaped(value) + rest == rest);
        if let Some(tail) = unescaped(rest) {
            assert(value + tail == tail);
        }
    } else {
        let front = value.drop_last();
        let c = value.last();
        assert(escaped(value) + rest == escaped(front) + (escape_one(c) + rest));
        lemma_unescape_prefix(front, escape_one(c) + rest);
        lemma_unescape_step(c, rest);
        if let Some(tail) = unescaped(rest) {
            assert(front + (seq![c] + tail) == value + tail);
        }
    }
}

/// Reading back what was written gives the value that was written, for every
/// value.
pub proof fn law_unescape_undoes_escape(value: Seq<char>)
    ensures
        unescaped(escaped(value)) == Some(value),
{
    lemma_unescape_prefix(value, Seq::empty());
    assert(escaped(value) + Seq::<char>::empty() == escaped(value));
    assert(value + Seq::<char>::empty() == value);
}

/// A written value holds no blank, no list separator and no character that ends
/// a line, whatever the value holds.
pub proof fn law_escaped_has_no_separator(value: Seq<char>)
    ensures
        !escaped(value).contains(' '),
        !escaped(value).contains('|'),
        !escaped(value).contains('\n'),
        !escaped(value).contains('\r'),
    decreases value.len(),
{
    if value.len() != 0 {
        law_escaped_has_no_separator(value.drop_last());
        let front = escaped(value.drop_last());
        let one = escape_one(value.last());
        text::lemma_concat_contains(front, one, ' ');
        text::lemma_concat_contains(front, one, '|');
        text::lemma_concat_contains(front, one, '\n');
        text::lemma_concat_contains(front, one, '\r');
    }
}

/// What separates parts of a line, what ends a line, and a few other characters
/// are written as a backslash and a letter; every other character is written as
/// itself.
pub proof fn law_special_characters_are_written_as_letters(c: char)
    ensures
        escaped(seq!['\\']) == seq!['\\', '\\'],
        escaped(seq!['/']) == seq!['\\', '/'],
        escaped(seq![' ']) == seq!['\\', 's'],
        escaped(seq!['|']) == seq!['\\', 'p'],
        escaped(seq!['\u{7}']) == seq!['\\', 'a'],
        escaped(seq!['\u{8}']) == seq!['\\', 'b'],
        escaped(seq!['\u{c}']) == seq!['\\', 'f'],
        escaped(seq!['\n']) == seq!['\\', 'n'],
        escaped(seq!['\r']) == seq!['\\', 'r'],
        escaped(seq!['\t']) == seq!['\\', 't'],
        escaped(seq!['\u{b}']) == seq!['\\', 'v'],
        escaped(seq![c]).len() == 1 ==> escaped(seq![c]) == seq![c],
        escaped(seq![c]).len() != 1 ==> "\\/ |\u{7}\u{8}\u{c}\n\r\t\u{b}"@.contains(c),
{
    reveal_strlit("\\/ |\u{7}\u{8}\u{c}\n\r\t\u{b}");
    lemma_escaped_one('\\');
    lemma_escaped_one('/');
    lemma_escaped_one(' ');
    lemma_escaped_one('|');
    lemma_escaped_one('\u{7}');
    lemma_escaped_one('\u{8}');
    lemma_escaped_one('\u{c}');
    lemma_escaped_one('\n');
    lemma_escaped_one('\r');
    lemma_escaped_one('\t');
    lemma_escaped_one('\u{b}');
    lemma_escaped_one(c);
    let all = "\\/ |\u{7}\u{8}\u{c}\n\r\t\u{b}"@;
    assert(all.len() == 11);
    assert(all[0] == '\\' && all[1] == '/' && all[2] == ' ' && all[3] == '|' && all[4] == '\u{7}'
        && all[5] == '\u{8}' && all[6] == '\u{c}' && all[7] == '\n' && all[8] == '\r' && all[9]
        == '\t' && all[10] == '\u{b}');
}

proof fn lemma_escaped_one(c: char)
    ensures
        escaped(seq![c]) == escape_one(c),
{
    assert(seq![c].drop_last() == Seq::<char>::empty());
    assert(escaped(seq![c].drop_last()) == Seq::<char>::empty());
    assert(seq![c].last() == c);
    assert(Seq::<char>::empty() + escape_one(c) == escape_one(c));
}

/// A value is written part by part: what one part is written as does not depend on
/// the others.
pub proof fn law_values_are_written_part_by_part(a: Seq<char>, b: Seq<char>)
    ensures
        escaped(a + b) == escaped(a) + escaped(b),
        escaped(Seq::empty()) == Seq::<char>::empty(),
    decreases b.len(),
{
    if b.len() == 0 {
        assert(a + b == a);
        assert(escaped(a) + escaped(b) == escaped(a));
    } else {
        law_values_are_written_part_by_part(a, b.drop_last());
        assert((a + b).drop_last() == a + b.drop_last());
        assert((a + b).last() == b.last());
        assert(escaped(a) + (escaped(b.drop_last()) + escape_one(b.last())) == escaped(a)
            + escaped(b.drop_last()) + escape_one(b.last()));
    }
}

/// A character that is no backslash is read as itself, whatever follows; a
/// backslash is read together with the letter behind it, and is refused where that
/// letter belongs to no written character or is missing.
pub proof fn law_written_values_are_read_from_the_left(c: char, letter: char, rest: Seq<char>)
    ensures
        unescaped(Seq::empty()) == Some(Seq::<char>::empty()),
        unescaped(seq!['\\']) is None,
        c != '\\' ==> match unescaped(rest) {
            Some(value) => unescaped(seq![c] + rest) == Some(seq![c] + value),
            None => unescaped(seq![c] + rest) is None,
        },
        unescaped(seq!['\\', letter] + rest) is Some <==> "\\/spabfnrtv"@.contains(letter)
            && unescaped(rest) is Some,
        escaped(seq![c]) == seq!['\\', letter] ==> match unescaped(rest) {
            Some(value) => unescaped(seq!['\\', letter] + rest) == Some(seq![c] + value),
            None => true,
        },
{
    assert(seq!['\\'].len() == 1 && seq!['\\'][0] == '\\');
    let plain = seq![c] + rest;
    assert(plain[0] == c && plain.skip(1) == rest);
    let pair = seq!['\\', letter] + rest;
    assert(pair[0] == '\\' && pair[1] == letter && pair.skip(2) == rest);
    lemma_escaped_one(c);
    if escaped(seq![c]) == seq!['\\', letter] {
        assert(escape_one(c)[1] == letter);
        assert(char_of(letter) == Some(c));
    }
    let all = "\\/spabfnrtv"@;
    reveal_strlit("\\/spabfnrtv");
    assert(all.len() == 11);
    assert(all[0] == '\\' && all[1] == '/' && all[2] == 's' && all[3] == 'p' && all[4] == 'a'
        && all[5] == 'b' && all[6] == 'f' && all[7] == 'n' && all[8] == 'r' && all[9] == 't'
        && all[10] == 'v');
}

} // verus!
