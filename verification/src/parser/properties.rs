//! Rows of properties.
//!
//! A row is written as `key=value` pairs with blanks between them. A value is
//! escaped; a pair whose value is empty may lack the `=`.

use vstd::prelude::*;

use crate::error::{ParseError, ParseErrorView};
use crate::parser::escape;
use crate::parser::number;
use crate::parser::text;

verus! {

/// A row as contracts speak of it: keys with their values, in order.
pub type Row = Seq<(Seq<char>, Seq<char>)>;

/// One property of a row.
#[derive(Debug)]
pub struct Property {
    pub key: String,
    pub value: String,
}

impl View for Property {
    type V = (Seq<char>, Seq<char>);

    open spec fn view(&self) -> (Seq<char>, Seq<char>) {
        (self.key@, self.value@)
    }
}

/// The properties of a row, in the order in which they were written.
#[derive(Debug)]
pub struct Properties {
    pub entries: Vec<Property>,
}

impl View for Properties {
    type V = Row;

    open spec fn view(&self) -> Row {
        self.entries@.map_values(|p: Property| p@)
    }
}

/// `row` behind the properties `done`.
pub open spec fn prepended(done: Row, row: Result<Row, ParseErrorView>) -> Result<
    Row,
    ParseErrorView,
> {
    match row {
        Ok(rest) => Ok(done + rest),
        Err(e) => Err(e),
    }
}

/// The row that `s` is the written form of. The leftmost value that cannot be
/// read decides the error.
pub open spec fn row_of(s: Seq<char>) -> Result<Row, ParseErrorView>
    decreases s.len(),
{
    if s.len() == 0 {
        Ok(Seq::empty())
    } else {
        proof {
            text::lemma_first_index(s, ' ');
        }
        let pair = text::before(s, ' ');
        let rest = text::after(s, ' ');
        if pair.len() == 0 {
            row_of(rest)
        } else {
            let raw = text::after(pair, '=');
            match escape::unescaped(raw) {
                Some(value) => prepended(seq![(text::before(pair, '='), value)], row_of(rest)),
                None => Err(ParseErrorView::InvalidEscape { value: raw }),
            }
        }
    }
}

/// The value of the first property of `row` with that key.
pub open spec fn lookup(row: Row, key: Seq<char>) -> Option<Seq<char>>
    decreases row.len(),
{
    if row.len() == 0 {
        None
    } else if row[0].0 == key {
        Some(row[0].1)
    } else {
        lookup(row.drop_first(), key)
    }
}

/// The text under `key`, which must be there.
pub open spec fn text_at(row: Row, key: Seq<char>) -> Result<Seq<char>, ParseErrorView> {
    match lookup(row, key) {
        Some(value) => Ok(value),
        None => Err(ParseErrorView::MissingProperty { key }),
    }
}

/// The number under `key`, which must be there.
pub open spec fn i32_at(row: Row, key: Seq<char>) -> Result<i32, ParseErrorView> {
    match lookup(row, key) {
        Some(value) => match number::i32_of(value) {
            Some(n) => Ok(n),
            None => Err(ParseErrorView::InvalidNumber { key, value }),
        },
        None => Err(ParseErrorView::MissingProperty { key }),
    }
}

/// The flag under `key`, if it is there.
pub open spec fn flag_at(row: Row, key: Seq<char>) -> Result<Option<bool>, ParseErrorView> {
    match lookup(row, key) {
        Some(value) => match number::flag_of(value) {
            Some(flag) => Ok(Some(flag)),
            None => Err(ParseErrorView::InvalidFlag { key, value }),
        },
        None => Ok(None),
    }
}

impl Properties {
    /// Reads a row.
    pub fn parse(s: &[char]) -> (r: Result<Properties, ParseError>)
        ensures
            match r {
                Ok(properties) => row_of(s@) == Ok::<Row, ParseErrorView>(properties@),
                Err(e) => row_of(s@) == Err::<Row, ParseErrorView>(e@),
            },
    {
        let mut properties = Properties { entries: Vec::new() };
        let mut i: usize = 0;
        assert(s@.skip(0) == s@);
        assert(properties@ == Seq::<(Seq<char>, Seq<char>)>::empty());
        proof {
            match row_of(s@) {
                Ok(row) => {
                    assert(properties@ + row == row);
                },
                Err(e) => {},
            }
        }
        while i < s.len()
            invariant
                i <= s@.len(),
                row_of(s@) == prepended(properties@, row_of(s@.skip(i as int))),
            decreases s@.len() - i,
        {
            let ghost rest = s@.skip(i as int);
            let ghost done = properties@;
            proof {
                text::lemma_first_index(rest, ' ');
            }
            let end: usize = text::find(s, ' ', i);
            let next: usize = if end < s.len() {
                end + 1
            } else {
                end
            };
            assert(text::after(rest, ' ') == s@.skip(next as int));
            if end > i {
                let pair: &[char] = vstd::slice::slice_subrange(s, i, end);
                assert(pair@ == text::before(rest, ' '));
                let cut: usize = text::find(pair, '=', 0);
                assert(pair@.skip(0) == pair@);
                let start: usize = if cut < pair.len() {
                    cut + 1
                } else {
                    cut
                };
                let raw: &[char] = vstd::slice::slice_subrange(pair, start, pair.len());
                assert(raw@ == text::after(pair@, '='));
                let key: &[char] = vstd::slice::slice_subrange(pair, 0, cut);
                assert(key@ == text::before(pair@, '='));
                match escape::unescape(raw) {
                    None => {
                        return Err(ParseError::InvalidEscape { value: text::to_text(raw) });
                    },
                    Some(value) => {
                        let property = Property { key: text::to_text(key), value };
                        let ghost p = property@;
                        properties.entries.push(property);
                        assert(properties@ == done.push(p));
                        proof {
                            match row_of(text::after(rest, ' ')) {
                                Ok(row) => {
                                    assert(done + (seq![p] + row) == done.push(p) + row);
                                },
                                Err(e) => {},
                            }
                        }
                    },
                }
            }
            i = next;
        }
        assert(s@.skip(i as int) == Seq::<char>::empty());
        assert(properties@ + Seq::<(Seq<char>, Seq<char>)>::empty() == properties@);
        Ok(properties)
    }

    /// The value of the first property with that key.
    pub fn get(&self, key: &str) -> (value: Option<&String>)
        ensures
            match value {
                Some(value) => lookup(self@, key@) == Some(value@),
                None => lookup(self@, key@) is None,
            },
    {
        let wanted: String = key.to_owned();
        let mut i: usize = 0;
        assert(self@.skip(0) == self@);
        while i < self.entries.len()
            invariant
                i <= self.entries@.len(),
                self@.len() == self.entries@.len(),
                wanted@ == key@,
                lookup(self@, key@) == lookup(self@.skip(i as int), key@),
            decreases self.entries@.len() - i,
        {
            let ghost rest = self@.skip(i as int);
            assert(rest[0] == self.entries@[i as int]@);
            if self.entries[i].key == wanted {
                return Some(&self.entries[i].value);
            }
            assert(rest.drop_first() == self@.skip(i + 1));
            i += 1;
        }
        None
    }

    /// The text under `key`.
    pub fn text(&self, key: &str) -> (r: Result<String, ParseError>)
        ensures
            match r {
                Ok(value) => text_at(self@, key@) == Ok::<Seq<char>, ParseErrorView>(value@),
                Err(e) => text_at(self@, key@) == Err::<Seq<char>, ParseErrorView>(e@),
            },
    {
        match self.get(key) {
            Some(value) => Ok(value.clone()),
            None => Err(ParseError::MissingProperty { key: key.to_owned() }),
        }
    }

    /// The number under `key`.
    pub fn number(&self, key: &str) -> (r: Result<i32, ParseError>)
        ensures
            match r {
                Ok(n) => i32_at(self@, key@) == Ok::<i32, ParseErrorView>(n),
                Err(e) => i32_at(self@, key@) == Err::<i32, ParseErrorView>(e@),
            },
    {
        match self.get(key) {
            Some(value) => match number::parse_i32(text::to_chars(value.as_str()).as_slice()) {
                Some(n) => Ok(n),
                None => Err(ParseError::InvalidNumber { key: key.to_owned(), value: value.clone() }),
            },
            None => Err(ParseError::MissingProperty { key: key.to_owned() }),
        }
    }

    /// The flag under `key`, if there is one.
    pub fn flag(&self, key: &str) -> (r: Result<Option<bool>, ParseError>)
        ensures
            match r {
                Ok(flag) => flag_at(self@, key@) == Ok::<Option<bool>, ParseErrorView>(flag),
                Err(e) => flag_at(self@, key@) == Err::<Option<bool>, ParseErrorView>(e@),
            },
    {
        match self.get(key) {
            Some(value) => match number::parse_flag(text::to_chars(value.as_str()).as_slice()) {
                Some(flag) => Ok(Some(flag)),
                None => Err(ParseError::InvalidFlag { key: key.to_owned(), value: value.clone() }),
            },
            None => Ok(None),
        }
    }
}

/// Whether the first property of `row` with that key stands at position `i`.
pub open spec fn first_at(row: Row, key: Seq<char>, i: int) -> bool {
    &&& 0 <= i < row.len()
    &&& row[i].0 == key
    &&& forall|j: int| 0 <= j < i ==> (#[trigger] row[j]).0 != key
}

/// The first property with a key gives the value under that key, whatever else
/// stands in the row.
pub proof fn law_first_property_counts(row: Row, key: Seq<char>, i: int)
    requires
        first_at(row, key, i),
    ensures
        lookup(row, key) == Some(row[i].1),
    decreases row.len(),
{
    if i > 0 {
        let tail = row.drop_first();
        assert(row[0].0 != key);
        assert forall|j: int| 0 <= j < i - 1 implies (#[trigger] tail[j]).0 != key by {
            assert(tail[j] == row[j + 1]);
        }
        law_first_property_counts(tail, key, i - 1);
    }
}

/// There is nothing under a key that no property has.
pub proof fn law_absent_key_has_no_value(row: Row, key: Seq<char>)
    requires
        forall|i: int| 0 <= i < row.len() ==> (#[trigger] row[i]).0 != key,
    ensures
        lookup(row, key) is None,
    decreases row.len(),
{
    if row.len() > 0 {
        let tail = row.drop_first();
        assert(row[0].0 != key);
        assert forall|i: int| 0 <= i < tail.len() implies (#[trigger] tail[i]).0 != key by {
            assert(tail[i] == row[i + 1]);
        }
        law_absent_key_has_no_value(tail, key);
    }
}

/// A text or a number is given where its property is there and stands for one, and
/// a flag may be absent; every failure names the key, and the value if there is
/// one.
pub proof fn law_values_are_given_under_their_key(row: Row, key: Seq<char>)
    ensures
        match lookup(row, key) {
            Some(value) => {
                &&& text_at(row, key) == Ok::<Seq<char>, ParseErrorView>(value)
                &&& match number::i32_of(value) {
                    Some(n) => i32_at(row, key) == Ok::<i32, ParseErrorView>(n),
                    None => i32_at(row, key) == Err::<i32, ParseErrorView>(
                        ParseErrorView::InvalidNumber { key, value },
                    ),
                }
                &&& match number::flag_of(value) {
                    Some(flag) => flag_at(row, key) == Ok::<Option<bool>, ParseErrorView>(
                        Some(flag),
                    ),
                    None => flag_at(row, key) == Err::<Option<bool>, ParseErrorView>(
                        ParseErrorView::InvalidFlag { key, value },
                    ),
                }
            },
            None => {
                let missing = ParseErrorView::MissingProperty { key };
                &&& text_at(row, key) == Err::<Seq<char>, ParseErrorView>(missing)
                &&& i32_at(row, key) == Err::<i32, ParseErrorView>(missing)
                &&& flag_at(row, key) == Ok::<Option<bool>, ParseErrorView>(None)
            },
        },
{
}

/// The words of a row are read from left to right, and the first that cannot be
/// read decides.
pub proof fn law_rows_are_read_word_by_word(word: Seq<char>, rest: Seq<char>)
    requires
        !word.contains(' '),
    ensures
        row_of(Seq::empty()) == Ok::<Row, ParseErrorView>(Seq::empty()),
        match (row_of(word), row_of(rest)) {
            (Ok(first), Ok(more)) => row_of(word + seq![' '] + rest) == Ok::<Row, ParseErrorView>(
                first + more,
            ),
            (Ok(_), Err(e)) => row_of(word + seq![' '] + rest) == Err::<Row, ParseErrorView>(e),
            (Err(e), _) => row_of(word + seq![' '] + rest) == Err::<Row, ParseErrorView>(e),
        },
{
    text::lemma_cut(word, ' ', rest);
    text::lemma_uncut(word, ' ');
    if word.len() == 0 {
        assert(row_of(word) == Ok::<Row, ParseErrorView>(Seq::empty()));
        if let Ok(more) = row_of(rest) {
            assert(Seq::<(Seq<char>, Seq<char>)>::empty() + more == more);
        }
    } else {
        assert(row_of(Seq::<char>::empty()) == Ok::<Row, ParseErrorView>(Seq::empty()));
        let raw = text::after(word, '=');
        if let Some(value) = escape::unescaped(raw) {
            let pair = seq![(text::before(word, '='), value)];
            assert(pair + Seq::<(Seq<char>, Seq<char>)>::empty() == pair);
        }
    }
}

/// A word is one property: what stands in front of its first `=` is the key, and
/// what stands behind it the written value. A word without `=` is a key with an
/// empty value.
pub proof fn law_word_is_one_property(key: Seq<char>, raw: Seq<char>)
    requires
        !key.contains(' '),
        !key.contains('='),
        !raw.contains(' '),
    ensures
        match escape::unescaped(raw) {
            Some(value) => row_of(key + seq!['='] + raw) == Ok::<Row, ParseErrorView>(
                seq![(key, value)],
            ),
            None => row_of(key + seq!['='] + raw) == Err::<Row, ParseErrorView>(
                ParseErrorView::InvalidEscape { value: raw },
            ),
        },
        key.len() > 0 ==> row_of(key) == Ok::<Row, ParseErrorView>(seq![(key, Seq::empty())]),
{
    let word = key + seq!['='] + raw;
    text::lemma_concat_contains(key, seq!['='], ' ');
    text::lemma_concat_contains(key + seq!['='], raw, ' ');
    text::lemma_cut(key, '=', raw);
    text::lemma_uncut(word, ' ');
    text::lemma_uncut(key, ' ');
    text::lemma_uncut(key, '=');
    let none = Seq::<(Seq<char>, Seq<char>)>::empty();
    assert(row_of(Seq::<char>::empty()) == Ok::<Row, ParseErrorView>(none));
    assert(escape::unescaped(Seq::<char>::empty()) == Some(Seq::<char>::empty()));
    assert(seq![(key, Seq::<char>::empty())] + none == seq![(key, Seq::<char>::empty())]);
    if let Some(value) = escape::unescaped(raw) {
        assert(seq![(key, value)] + none == seq![(key, value)]);
    }
}

/// A row shows all its properties, in order.
pub proof fn law_rows_show_their_properties(properties: Properties)
    ensures
        properties@.len() == properties.entries@.len(),
        forall|i: int|
            0 <= i < properties@.len() ==> #[trigger] properties@[i] == (
                properties.entries@[i].key@,
                properties.entries@[i].value@,
            ),
{
}

} // verus!
