//! Reading of what the server sends.

use vstd::prelude::*;

use crate::error::{ParseError, ParseErrorView};
use crate::parser::properties;
use crate::parser::properties::{Properties, Row};
use crate::parser::text;

verus! {

/// The text that `bytes` encode; `None` if they are not UTF-8.
pub open spec fn text_of(bytes: Seq<u8>) -> Option<Seq<char>> {
    if vstd::utf8::valid_utf8(bytes) {
        Some(vstd::utf8::decode_utf8(bytes))
    } else {
        None
    }
}

/// What is left of a text once its first row has been read.
pub open spec fn behind_row(s: Option<Seq<char>>) -> Option<Seq<char>> {
    match s {
        Some(s) => Some(text::after(s, '|')),
        None => None,
    }
}

/// What is left of a text once its first word has been read.
pub open spec fn behind_name(s: Option<Seq<char>>) -> Option<Seq<char>> {
    match s {
        Some(s) => Some(text::after(s, ' ')),
        None => None,
    }
}

/// The result of a decoding step as contracts speak of it.
pub open spec fn outcome<T: View>(r: Result<T, ParseError>) -> Result<T::V, ParseErrorView> {
    match r {
        Ok(value) => Ok(value@),
        Err(e) => Err(e@),
    }
}

/// A value that is read from one row of properties.
pub trait Decode: Sized + View {
    /// The value that `row` stands for, or why it stands for none.
    spec fn of_row(row: Row) -> Result<Self::V, ParseErrorView>;

    /// Reads the value from a row.
    fn decode(row: Properties) -> (r: Result<Self, ParseError>)
        ensures
            outcome(r) == Self::of_row(row@),
            match r {
                Ok(value) => Self::of_row(row@) == Ok::<Self::V, ParseErrorView>(value@),
                Err(e) => Self::of_row(row@) == Err::<Self::V, ParseErrorView>(e@),
            },
    ;
}

/// The value in the first row of a text.
pub open spec fn value_of<T: Decode>(s: Option<Seq<char>>) -> Result<T::V, ParseErrorView> {
    match s {
        Some(s) => match properties::row_of(text::before(s, '|')) {
            Ok(row) => T::of_row(row),
            Err(e) => Err(e),
        },
        None => Err(ParseErrorView::InvalidUtf8),
    }
}

/// The values in all rows of a text, in order. The first row that holds none
/// decides the error.
pub open spec fn values_of<T: Decode>(s: Seq<char>) -> Result<Seq<T::V>, ParseErrorView>
    decreases s.len(),
{
    if s.len() == 0 {
        Ok(Seq::empty())
    } else {
        proof {
            text::lemma_first_index(s, '|');
        }
        match value_of::<T>(Some(s)) {
            Ok(value) => match values_of::<T>(text::after(s, '|')) {
                Ok(rest) => Ok(seq![value] + rest),
                Err(e) => Err(e),
            },
            Err(e) => Err(e),
        }
    }
}

/// What is left of a text once its rows have been read up to the first one that
/// holds no value.
pub open spec fn behind_values<T: Decode>(s: Seq<char>) -> Seq<char>
    decreases s.len(),
{
    if s.len() == 0 {
        s
    } else {
        proof {
            text::lemma_first_index(s, '|');
        }
        match value_of::<T>(Some(s)) {
            Ok(value) => behind_values::<T>(text::after(s, '|')),
            Err(e) => text::after(s, '|'),
        }
    }
}

/// A reader of one response or notification.
pub struct Decoder {
    /// What has not been read yet; `None` if the input is not UTF-8.
    rest: Option<Vec<char>>,
}

impl View for Decoder {
    type V = Option<Seq<char>>;

    closed spec fn view(&self) -> Option<Seq<char>> {
        match self.rest {
            Some(chars) => Some(chars@),
            None => None,
        }
    }
}

impl Decoder {
    /// A reader at the start of `bytes`.
    pub fn new(bytes: &[u8]) -> (decoder: Decoder)
        ensures
            decoder@ == text_of(bytes@),
    {
        broadcast use vstd::utf8::encode_utf8_valid_utf8, vstd::utf8::encode_utf8_decode_utf8;

        match core::str::from_utf8(bytes) {
            Ok(s) => Decoder { rest: Some(text::to_chars(s)) },
            Err(_) => Decoder { rest: None },
        }
    }

    /// A reader at the start of `chars`.
    fn over(chars: &[char]) -> (decoder: Decoder)
        ensures
            decoder@ == Some(chars@),
    {
        Decoder { rest: Some(chars_from(chars, 0)) }
    }

    /// Reads the first word.
    pub fn decode_name(&mut self) -> (r: Result<String, ParseError>)
        ensures
            match old(self)@ {
                Some(s) => r matches Ok(name) && name@ == text::before(s, ' '),
                None => r matches Err(e) && e@ == ParseErrorView::InvalidUtf8,
            },
            final(self)@ == behind_name(old(self)@),
    {
        match self.cut(' ') {
            Some(word) => Ok(text::to_text(word.as_slice())),
            None => Err(ParseError::InvalidUtf8),
        }
    }

    /// Takes the part in front of the first `sep` out of what has not been read,
    /// and the separator with it.
    fn cut(&mut self, sep: char) -> (part: Option<Vec<char>>)
        ensures
            match old(self)@ {
                Some(s) => part matches Some(part) && part@ == text::before(s, sep)
                    && final(self)@ == Some(text::after(s, sep)),
                None => part is None && final(self)@ is None,
            },
    {
        let (part, rest) = match &self.rest {
            None => {
                return None;
            },
            Some(chars) => {
                let end: usize = text::find(chars.as_slice(), sep, 0);
                assert(chars@.skip(0) == chars@);
                let part: Vec<char> = chars_from(
                    vstd::slice::slice_subrange(chars.as_slice(), 0, end),
                    0,
                );
                let next: usize = if end < chars.len() {
                    end + 1
                } else {
                    end
                };
                let rest: Vec<char> = chars_from(chars.as_slice(), next);
                assert(part@ == text::before(chars@, sep));
                assert(rest@ == text::after(chars@, sep));
                (part, rest)
            },
        };
        self.rest = Some(rest);
        Some(part)
    }

    /// Reads a value from the next row.
    pub fn decode<T: Decode>(&mut self) -> (r: Result<T, ParseError>)
        ensures
            outcome(r) == value_of::<T>(old(self)@),
            match r {
                Ok(value) => value_of::<T>(old(self)@) == Ok::<T::V, ParseErrorView>(value@),
                Err(e) => value_of::<T>(old(self)@) == Err::<T::V, ParseErrorView>(e@),
            },
            final(self)@ == behind_row(old(self)@),
    {
        match self.cut('|') {
            Some(row) => match Properties::parse(row.as_slice()) {
                Ok(row) => T::decode(row),
                Err(e) => Err(e),
            },
            None => Err(ParseError::InvalidUtf8),
        }
    }

    /// Reads past a name, then a value from the row behind it.
    pub fn decode_with_name<T: Decode>(&mut self) -> (r: Result<T, ParseError>)
        ensures
            outcome(r) == value_of::<T>(behind_name(old(self)@)),
            match r {
                Ok(value) => value_of::<T>(behind_name(old(self)@)) == Ok::<T::V, ParseErrorView>(
                    value@,
                ),
                Err(e) => value_of::<T>(behind_name(old(self)@)) == Err::<T::V, ParseErrorView>(
                    e@,
                ),
            },
            final(self)@ == behind_row(behind_name(old(self)@)),
    {
        match self.decode_name() {
            Ok(_) => self.decode(),
            Err(e) => Err(e),
        }
    }

    /// Whether everything has been read; `None` if the input is not UTF-8.
    fn at_end(&self) -> (end: Option<bool>)
        ensures
            match self@ {
                Some(s) => end == Some(s.len() == 0),
                None => end is None,
            },
    {
        match &self.rest {
            Some(chars) => Some(chars.len() == 0),
            None => None,
        }
    }
}

/// The characters from position `from` on.
fn chars_from(s: &[char], from: usize) -> (chars: Vec<char>)
    requires
        from <= s@.len(),
    ensures
        chars@ == s@.skip(from as int),
{
    let mut chars: Vec<char> = Vec::new();
    let mut i: usize = from;
    while i < s.len()
        invariant
            from <= i <= s@.len(),
            chars@ == s@.subrange(from as int, i as int),
        decreases s@.len() - i,
    {
        chars.push(s[i]);
        i += 1;
    }
    chars
}

impl Decode for Properties {
    open spec fn of_row(row: Row) -> Result<Row, ParseErrorView> {
        Ok(row)
    }

    fn decode(row: Properties) -> (r: Result<Self, ParseError>) {
        Ok(row)
    }
}

/// A destination that rows are decoded into.
pub trait DecodeInto: Sized {
    /// What contracts see of the destination.
    type Contents;

    spec fn contents(self) -> Self::Contents;

    /// What the destination holds once the rows of a text have been decoded into
    /// it, or why they cannot be.
    spec fn filled(contents: Self::Contents, s: Option<Seq<char>>) -> Result<
        Self::Contents,
        ParseErrorView,
    >;

    /// What is left of the text then.
    spec fn behind(s: Option<Seq<char>>) -> Option<Seq<char>>;

    /// Decodes all rows that are left.
    fn decode_into(self, decoder: &mut Decoder) -> (r: Result<Self, ParseError>)
        ensures
            match r {
                Ok(dst) => Self::filled(self.contents(), old(decoder)@) == Ok::<
                    Self::Contents,
                    ParseErrorView,
                >(dst.contents()),
                Err(e) => Self::filled(self.contents(), old(decoder)@) == Err::<
                    Self::Contents,
                    ParseErrorView,
                >(e@),
            },
            final(decoder)@ == Self::behind(old(decoder)@),
    ;
}

/// `values` behind what a list held before.
pub open spec fn appended<A>(held: Seq<A>, values: Result<Seq<A>, ParseErrorView>) -> Result<
    Seq<A>,
    ParseErrorView,
> {
    match values {
        Ok(values) => Ok(held + values),
        Err(e) => Err(e),
    }
}

/// A list takes one value from each row, behind those that it holds.
impl<T: Decode> DecodeInto for Vec<T> {
    type Contents = Seq<T::V>;

    open spec fn contents(self) -> Seq<T::V> {
        self@.map_values(|value: T| value@)
    }

    open spec fn filled(contents: Seq<T::V>, s: Option<Seq<char>>) -> Result<
        Seq<T::V>,
        ParseErrorView,
    > {
        match s {
            Some(s) => appended(contents, values_of::<T>(s)),
            None => Err(ParseErrorView::InvalidUtf8),
        }
    }

    open spec fn behind(s: Option<Seq<char>>) -> Option<Seq<char>> {
        match s {
            Some(s) => Some(behind_values::<T>(s)),
            None => None,
        }
    }

    fn decode_into(self, decoder: &mut Decoder) -> (r: Result<Self, ParseError>) {
        let mut dst: Vec<T> = self;
        loop
            invariant
                Self::filled(self.contents(), old(decoder)@) == Self::filled(
                    dst.contents(),
                    decoder@,
                ),
                Self::behind(old(decoder)@) == Self::behind(decoder@),
            decreases
                    (match decoder@ {
                        Some(s) => s.len(),
                        None => 0,
                    }),
        {
            match decoder.at_end() {
                None => {
                    return Err(ParseError::InvalidUtf8);
                },
                Some(true) => {
                    assert(dst.contents() + Seq::<T::V>::empty() == dst.contents());
                    return Ok(dst);
                },
                Some(false) => {
                    let ghost s = decoder@->0;
                    let ghost held = dst.contents();
                    proof {
                        text::lemma_first_index(s, '|');
                    }
                    match decoder.decode::<T>() {
                        Ok(value) => {
                            let ghost v = value@;
                            dst.push(value);
                            assert(dst.contents() == held.push(v));
                            proof {
                                match values_of::<T>(text::after(s, '|')) {
                                    Ok(rest) => {
                                        assert(held + (seq![v] + rest) == held.push(v) + rest);
                                    },
                                    Err(e) => {},
                                }
                            }
                        },
                        Err(e) => {
                            return Err(e);
                        },
                    }
                },
            }
        }
    }
}

/// What a function may make of a row: true of each result that it may give.
pub type Maker<T> = spec_fn(Seq<char>, Result<T, ParseError>) -> bool;

/// Whether `gen`, called on a reader of `row`, may give `r`.
pub open spec fn made_by<T, F: Fn(&mut Decoder) -> Result<T, ParseError>>(
    gen: F,
    row: Seq<char>,
    r: Result<T, ParseError>,
) -> bool {
    exists|d: &mut Decoder| (*d)@ == Some(row) && #[trigger] call_ensures(gen, (d,), r)
}

/// What `gen` may make of a row.
pub open spec fn maker<T, F: Fn(&mut Decoder) -> Result<T, ParseError>>(gen: F) -> Maker<T> {
    |row: Seq<char>, r: Result<T, ParseError>| made_by(gen, row, r)
}

/// Whether `values` may be made of the rows of `s`, in order.
pub open spec fn all_made<T>(may: Maker<T>, s: Seq<char>, values: Seq<T>) -> bool
    decreases s.len(),
{
    if s.len() == 0 {
        values.len() == 0
    } else {
        proof {
            text::lemma_first_index(s, '|');
        }
        &&& values.len() > 0
        &&& may(text::before(s, '|'), Ok(values[0]))
        &&& all_made(may, text::after(s, '|'), values.drop_first())
    }
}

/// Whether values may be made of the rows of `s` up to one that may give the
/// error `e`, with `rest` behind that row.
pub open spec fn failed<T>(may: Maker<T>, s: Seq<char>, e: ParseError, rest: Seq<char>) -> bool
    decreases s.len(),
{
    s.len() > 0 && {
        proof {
            text::lemma_first_index(s, '|');
        }
        let row = text::before(s, '|');
        let behind = text::after(s, '|');
        ||| rest == behind && may(row, Err(e))
        ||| failed(may, behind, e, rest) && exists|value: T| #[trigger] may(row, Ok(value))
    }
}

/// A destination that rows are decoded into by a function.
pub trait DecodeCustomInto<T>: Sized {
    /// Whether `r`, with `rest` left of the text, may come of decoding the rows
    /// of `s` into `dst`.
    spec fn filled_by(
        dst: Self,
        may: Maker<T>,
        s: Option<Seq<char>>,
        r: Result<Self, ParseError>,
        rest: Option<Seq<char>>,
    ) -> bool;

    /// Decodes all rows that are left, each by a call of `gen` on a reader of
    /// that row alone.
    fn decode_into<F: Fn(&mut Decoder) -> Result<T, ParseError>>(
        self,
        decoder: &mut Decoder,
        gen: F,
    ) -> (r: Result<Self, ParseError>)
        requires
            forall|d: &mut Decoder| call_requires(gen, (d,)),
        ensures
            Self::filled_by(self, maker(gen), old(decoder)@, r, final(decoder)@),
    ;
}

proof fn lemma_all_made_step<T>(may: Maker<T>, s: Seq<char>, value: T, values: Seq<T>)
    requires
        s.len() > 0,
        may(text::before(s, '|'), Ok(value)),
        all_made(may, text::after(s, '|'), values),
    ensures
        all_made(may, s, seq![value] + values),
{
    assert((seq![value] + values).drop_first() == values);
}

/// A list takes one value from each row, behind those that it holds.
impl<T> DecodeCustomInto<T> for Vec<T> {
    open spec fn filled_by(
        dst: Self,
        may: Maker<T>,
        s: Option<Seq<char>>,
        r: Result<Self, ParseError>,
        rest: Option<Seq<char>>,
    ) -> bool {
        match s {
            Some(s) => match r {
                Ok(list) => {
                    &&& rest == Some(Seq::<char>::empty())
                    &&& dst@.len() <= list@.len()
                    &&& list@.take(dst@.len() as int) == dst@
                    &&& all_made(may, s, list@.skip(dst@.len() as int))
                },
                Err(e) => rest is Some && failed(may, s, e, rest->0),
            },
            None => (r matches Err(e) && e@ == ParseErrorView::InvalidUtf8) && rest is None,
        }
    }

    fn decode_into<F: Fn(&mut Decoder) -> Result<T, ParseError>>(
        self,
        decoder: &mut Decoder,
        gen: F,
    ) -> (r: Result<Self, ParseError>) {
        let ghost held = self@.len() as int;
        let ghost start = decoder@;
        let ghost may = maker(gen);
        let mut dst: Vec<T> = self;
        loop
            invariant
                forall|d: &mut Decoder| call_requires(gen, (d,)),
                may == maker(gen),
                held == self@.len(),
                held <= dst@.len(),
                dst@.take(held) == self@,
                start == old(decoder)@,
                start is None <==> decoder@ is None,
                start is Some ==> forall|values: Seq<T>| #[trigger]
                    all_made(may, decoder@->0, values) ==> all_made(
                        may,
                        start->0,
                        dst@.skip(held) + values,
                    ),
                start is Some ==> forall|e: ParseError, rest: Seq<char>| #[trigger]
                    failed(may, decoder@->0, e, rest) ==> failed(may, start->0, e, rest),
            decreases
                    (match decoder@ {
                        Some(s) => s.len(),
                        None => 0,
                    }),
        {
            match decoder.at_end() {
                None => {
                    return Err(ParseError::InvalidUtf8);
                },
                Some(true) => {
                    assert(all_made(may, decoder@->0, Seq::<T>::empty()));
                    assert(dst@.skip(held) + Seq::<T>::empty() == dst@.skip(held));
                    assert(decoder@->0 == Seq::<char>::empty());
                    return Ok(dst);
                },
                Some(false) => {},
            }
            let ghost s = decoder@->0;
            let ghost behind = text::after(s, '|');
            let ghost made = dst@.skip(held);
            proof {
                text::lemma_first_index(s, '|');
            }
            match decoder.cut('|') {
                None => {
                    return Err(ParseError::InvalidUtf8);
                },
                Some(row) => {
                    let mut reader: Decoder = Decoder::over(row.as_slice());
                    let r = gen(&mut reader);
                    assert(made_by(gen, text::before(s, '|'), r));
                    assert(may(text::before(s, '|'), r));
                    match r {
                        Ok(value) => {
                            dst.push(value);
                            proof {
                                assert(dst@.take(held) == self@);
                                assert(dst@.skip(held) == made.push(value));
                                assert forall|values: Seq<T>| #[trigger]
                                    all_made(may, behind, values) implies all_made(
                                    may,
                                    start->0,
                                    dst@.skip(held) + values,
                                ) by {
                                    lemma_all_made_step(may, s, value, values);
                                    assert(made + (seq![value] + values) == made.push(value)
                                        + values);
                                }
                                assert forall|e: ParseError, rest: Seq<char>| #[trigger]
                                    failed(may, behind, e, rest) implies failed(
                                    may,
                                    start->0,
                                    e,
                                    rest,
                                ) by {
                                    assert(failed(may, s, e, rest));
                                }
                            }
                        },
                        Err(e) => {
                            assert(failed(may, s, e, behind));
                            return Err(e);
                        },
                    }
                },
            }
        }
    }
}

/// Bytes are read as the text that they encode; what encodes no text is not read.
pub proof fn law_encoded_text_is_read(s: Seq<char>, bytes: Seq<u8>)
    ensures
        text_of(vstd::utf8::encode_utf8(s)) == Some(s),
        text_of(bytes) matches Some(t) ==> vstd::utf8::encode_utf8(t) == bytes,
        text_of(bytes) is None <==> !vstd::utf8::valid_utf8(bytes),
{
    broadcast use
        vstd::utf8::encode_utf8_valid_utf8,
        vstd::utf8::encode_utf8_decode_utf8,
        vstd::utf8::decode_utf8_encode_utf8,
    ;

}

/// A name is read up to the first blank, and what follows the blank is left to be
/// read.
pub proof fn law_name_ends_at_the_first_blank(word: Seq<char>, rest: Seq<char>)
    requires
        !word.contains(' '),
    ensures
        text::before(word + seq![' '] + rest, ' ') == word,
        text::before(word, ' ') == word,
        behind_name(Some(word + seq![' '] + rest)) == Some(rest),
        behind_name(Some(word)) == Some(Seq::<char>::empty()),
        behind_name(None) is None,
{
    text::lemma_cut(word, ' ', rest);
    text::lemma_uncut(word, ' ');
}

/// A value is read from the properties in front of the first separator, and what
/// follows the separator is left to be read.
pub proof fn law_value_is_read_from_one_row<T: Decode>(front: Seq<char>, rest: Seq<char>)
    requires
        !front.contains('|'),
    ensures
        match properties::row_of(front) {
            Ok(row) => value_of::<T>(Some(front)) == T::of_row(row),
            Err(e) => value_of::<T>(Some(front)) == Err::<T::V, ParseErrorView>(e),
        },
        value_of::<T>(Some(front + seq!['|'] + rest)) == value_of::<T>(Some(front)),
        value_of::<T>(None) == Err::<T::V, ParseErrorView>(ParseErrorView::InvalidUtf8),
        behind_row(Some(front + seq!['|'] + rest)) == Some(rest),
        behind_row(Some(front)) == Some(Seq::<char>::empty()),
        behind_row(None) is None,
{
    text::lemma_cut(front, '|', rest);
    text::lemma_uncut(front, '|');
}

/// The rows of a text are read from left to right, one value from each, and the
/// first that holds none decides; what stands behind it is then left to be read.
pub proof fn law_rows_are_read_one_by_one<T: Decode>(front: Seq<char>, rest: Seq<char>)
    requires
        !front.contains('|'),
    ensures
        values_of::<T>(Seq::empty()) == Ok::<Seq<T::V>, ParseErrorView>(Seq::empty()),
        front.len() > 0 ==> match value_of::<T>(Some(front)) {
            Ok(value) => values_of::<T>(front) == Ok::<Seq<T::V>, ParseErrorView>(seq![value]),
            Err(e) => values_of::<T>(front) == Err::<Seq<T::V>, ParseErrorView>(e),
        },
        match (value_of::<T>(Some(front)), values_of::<T>(rest)) {
            (Ok(value), Ok(more)) => values_of::<T>(front + seq!['|'] + rest) == Ok::<
                Seq<T::V>,
                ParseErrorView,
            >(seq![value] + more),
            (Ok(_), Err(e)) => values_of::<T>(front + seq!['|'] + rest) == Err::<
                Seq<T::V>,
                ParseErrorView,
            >(e),
            (Err(e), _) => values_of::<T>(front + seq!['|'] + rest) == Err::<
                Seq<T::V>,
                ParseErrorView,
            >(e),
        },
        value_of::<T>(Some(front)) is Err ==> behind_values::<T>(front + seq!['|'] + rest) == rest,
        value_of::<T>(Some(front)) is Ok ==> behind_values::<T>(front + seq!['|'] + rest)
            == behind_values::<T>(rest),
        values_of::<T>(rest) is Ok ==> behind_values::<T>(rest) == Seq::<char>::empty(),
{
    law_value_is_read_from_one_row::<T>(front, rest);
    text::lemma_cut(front, '|', rest);
    text::lemma_uncut(front, '|');
    let none = Seq::<T::V>::empty();
    assert(values_of::<T>(Seq::<char>::empty()) == Ok::<Seq<T::V>, ParseErrorView>(none));
    if let Ok(value) = value_of::<T>(Some(front)) {
        assert(seq![value] + none == seq![value]);
    }
    assert((front + seq!['|'] + rest).len() > 0);
    if values_of::<T>(rest) is Ok {
        lemma_nothing_is_left::<T>(rest);
    }
}

proof fn lemma_nothing_is_left<T: Decode>(s: Seq<char>)
    requires
        values_of::<T>(s) is Ok,
    ensures
        behind_values::<T>(s) == Seq::<char>::empty(),
    decreases s.len(),
{
    if s.len() > 0 {
        text::lemma_first_index(s, '|');
        lemma_nothing_is_left::<T>(text::after(s, '|'));
    }
}

/// A list keeps what it held, and takes the values of all rows behind that, in
/// order. Nothing is taken where a row holds no value, or the bytes no text.
pub proof fn law_lists_take_all_values<T: Decode>(held: Seq<T::V>, s: Seq<char>)
    ensures
        match values_of::<T>(s) {
            Ok(values) => Vec::<T>::filled(held, Some(s)) matches Ok(contents) && contents.len()
                == held.len() + values.len() && contents.take(held.len() as int) == held
                && contents.skip(held.len() as int) == values,
            Err(e) => Vec::<T>::filled(held, Some(s)) == Err::<Seq<T::V>, ParseErrorView>(e),
        },
        Vec::<T>::filled(held, None) == Err::<Seq<T::V>, ParseErrorView>(
            ParseErrorView::InvalidUtf8,
        ),
        <Vec<T> as DecodeInto>::behind(Some(s)) == Some(behind_values::<T>(s)),
        <Vec<T> as DecodeInto>::behind(None) is None,
{
    if let Ok(values) = values_of::<T>(s) {
        assert((held + values).take(held.len() as int) == held);
        assert((held + values).skip(held.len() as int) == values);
    }
}

/// A list shows each of its values.
pub proof fn law_lists_show_their_values<T: Decode>(list: Vec<T>)
    ensures
        list.contents().len() == list@.len(),
        forall|i: int| 0 <= i < list@.len() ==> #[trigger] list.contents()[i] == list@[i]@,
{
}

/// `parts` with separators between them.
pub open spec fn separated(parts: Seq<Seq<char>>) -> Seq<char>
    decreases parts.len(),
{
    if parts.len() == 0 {
        Seq::empty()
    } else if parts.len() == 1 {
        parts[0]
    } else {
        parts[0] + seq!['|'] + separated(parts.drop_first())
    }
}

/// Whether the parts show where they end: no part holds a separator, and the last
/// is not empty.
pub open spec fn separable(parts: Seq<Seq<char>>) -> bool {
    &&& forall|i: int| 0 <= i < parts.len() ==> !(#[trigger] parts[i]).contains('|')
    &&& parts.len() > 0 ==> parts.last().len() > 0
}

proof fn lemma_separated(parts: Seq<Seq<char>>)
    requires
        separable(parts),
        parts.len() > 0,
    ensures
        separated(parts).len() > 0,
        text::before(separated(parts), '|') == parts[0],
        text::after(separated(parts), '|') == separated(parts.drop_first()),
        separable(parts.drop_first()),
{
    let tail = parts.drop_first();
    assert(!parts[0].contains('|'));
    assert forall|i: int| 0 <= i < tail.len() implies !(#[trigger] tail[i]).contains('|') by {
        assert(tail[i] == parts[i + 1]);
    }
    if parts.len() == 1 {
        text::lemma_uncut(parts[0], '|');
    } else {
        text::lemma_cut(parts[0], '|', separated(tail));
    }
}

/// Values may be made of a text where there is one for each part of it, in order,
/// that may be made of that part.
pub proof fn law_one_value_is_made_of_each_part<T>(
    may: Maker<T>,
    parts: Seq<Seq<char>>,
    values: Seq<T>,
)
    requires
        separable(parts),
    ensures
        all_made(may, separated(parts), values) <==> values.len() == parts.len() && forall|i: int|
            0 <= i < parts.len() ==> may(#[trigger] parts[i], Ok(values[i])),
    decreases parts.len(),
{
    if parts.len() > 0 {
        lemma_separated(parts);
        let tail = parts.drop_first();
        law_one_value_is_made_of_each_part(may, tail, values.drop_first());
        if values.len() > 0 {
            let rest = values.drop_first();
            if all_made(may, separated(parts), values) {
                assert forall|i: int| 0 <= i < parts.len() implies may(
                    #[trigger] parts[i],
                    Ok(values[i]),
                ) by {
                    if i > 0 {
                        assert(may(tail[i - 1], Ok(rest[i - 1])));
                    }
                }
            }
            if values.len() == parts.len() && forall|i: int|
                0 <= i < parts.len() ==> may(#[trigger] parts[i], Ok(values[i])) {
                assert(may(parts[0], Ok(values[0])));
                assert forall|i: int| 0 <= i < tail.len() implies may(
                    #[trigger] tail[i],
                    Ok(rest[i]),
                ) by {
                    assert(may(parts[i + 1], Ok(values[i + 1])));
                }
            }
        }
    }
}

/// Whether part `k` may give the error `e`, each part in front of it a value, and
/// `rest` is what stands behind it.
pub open spec fn fails_at<T>(
    may: Maker<T>,
    parts: Seq<Seq<char>>,
    e: ParseError,
    rest: Seq<char>,
    k: int,
) -> bool {
    &&& 0 <= k < parts.len()
    &&& may(parts[k], Err(e))
    &&& rest == separated(parts.skip(k + 1))
    &&& forall|j: int| 0 <= j < k ==> may_succeed(may, #[trigger] parts[j])
}

/// Whether some value may be made of `row`.
pub open spec fn may_succeed<T>(may: Maker<T>, row: Seq<char>) -> bool {
    exists|value: T| #[trigger] may(row, Ok(value))
}

/// Making values of a text may fail only with an error that one of its parts may
/// give, with all parts in front of that one read and none behind it.
pub proof fn law_the_failing_part_decides<T>(
    may: Maker<T>,
    parts: Seq<Seq<char>>,
    e: ParseError,
    rest: Seq<char>,
)
    requires
        separable(parts),
    ensures
        failed(may, separated(parts), e, rest) <==> exists|k: int|
            fails_at(may, parts, e, rest, k),
    decreases parts.len(),
{
    if parts.len() > 0 {
        lemma_separated(parts);
        let tail = parts.drop_first();
        law_the_failing_part_decides(may, tail, e, rest);
        assert(parts.skip(1) == tail);
        if failed(may, separated(parts), e, rest) {
            if rest == separated(tail) && may(parts[0], Err(e)) {
                assert(fails_at(may, parts, e, rest, 0));
            } else {
                assert(may_succeed(may, parts[0]));
                let k = choose|k: int| fails_at(may, tail, e, rest, k);
                assert(tail.skip(k + 1) == parts.skip(k + 2));
                assert forall|j: int| 0 <= j < k + 1 implies may_succeed(
                    may,
                    #[trigger] parts[j],
                ) by {
                    if j > 0 {
                        assert(may_succeed(may, tail[j - 1]));
                    }
                }
                assert(fails_at(may, parts, e, rest, k + 1));
            }
        }
        if exists|k: int| fails_at(may, parts, e, rest, k) {
            let k = choose|k: int| fails_at(may, parts, e, rest, k);
            if k > 0 {
                assert(may_succeed(may, parts[0]));
                assert(tail.skip(k) == parts.skip(k + 1));
                assert forall|j: int| 0 <= j < k - 1 implies may_succeed(
                    may,
                    #[trigger] tail[j],
                ) by {
                    assert(may_succeed(may, parts[j + 1]));
                }
                assert(fails_at(may, tail, e, rest, k - 1));
            }
        }
    } else {
        assert forall|k: int| !fails_at(may, parts, e, rest, k) by {}
    }
}

/// A list that is filled by a function keeps what it held, and takes one value of
/// each part behind that, in order; it fails only where a part does.
pub proof fn law_lists_take_what_is_made<T>(
    dst: Vec<T>,
    may: Maker<T>,
    parts: Seq<Seq<char>>,
    r: Result<Vec<T>, ParseError>,
    rest: Option<Seq<char>>,
)
    requires
        separable(parts),
    ensures
        Vec::<T>::filled_by(dst, may, Some(separated(parts)), r, rest) ==> match r {
            Ok(list) => {
                &&& rest == Some(Seq::<char>::empty())
                &&& list@.len() == dst@.len() + parts.len()
                &&& forall|i: int| 0 <= i < dst@.len() ==> #[trigger] list@[i] == dst@[i]
                &&& forall|i: int|
                    0 <= i < parts.len() ==> may(
                        #[trigger] parts[i],
                        Ok(list@[dst@.len() + i]),
                    )
            },
            Err(e) => rest is Some && exists|k: int| fails_at(may, parts, e, rest->0, k),
        },
        Vec::<T>::filled_by(dst, may, None, r, rest) ==> rest is None && (r matches Err(e) && e@
            == ParseErrorView::InvalidUtf8),
{
    if Vec::<T>::filled_by(dst, may, Some(separated(parts)), r, rest) {
        match r {
            Ok(list) => {
                let made = list@.skip(dst@.len() as int);
                law_one_value_is_made_of_each_part(may, parts, made);
                assert forall|i: int| 0 <= i < dst@.len() implies #[trigger] list@[i]
                    == dst@[i] by {
                    assert(list@.take(dst@.len() as int)[i] == list@[i]);
                }
                assert forall|i: int| 0 <= i < parts.len() implies may(
                    #[trigger] parts[i],
                    Ok(list@[dst@.len() + i]),
                ) by {
                    assert(may(parts[i], Ok(made[i])));
                }
            },
            Err(e) => {
                law_the_failing_part_decides(may, parts, e, rest->0);
            },
        }
    }
}

/// What a function may make of a row is what calls of it on a reader of that row
/// may give, and nothing else.
pub proof fn law_calls_decide_what_is_made<T, F: Fn(&mut Decoder) -> Result<T, ParseError>>(
    gen: F,
    row: Seq<char>,
    r: Result<T, ParseError>,
)
    ensures
        maker(gen)(row, r) <==> exists|d: &mut Decoder|
            (*d)@ == Some(row) && #[trigger] call_ensures(gen, (d,), r),
{
}

} // verus!
