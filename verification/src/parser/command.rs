//! Writing of commands.

use vstd::prelude::*;

use crate::parser::decoder;
use crate::parser::decoder::DecodeInto;
use crate::parser::escape;
use crate::parser::properties;
use crate::parser::properties::{Properties, Property, Row};
use crate::parser::text;

verus! {

/// How one property is written.
pub open spec fn pair_text(pair: (Seq<char>, Seq<char>)) -> Seq<char> {
    pair.0 + seq!['='] + escape::escaped(pair.1)
}

/// How a row is written.
pub open spec fn row_text(row: Row) -> Seq<char>
    decreases row.len(),
{
    if row.len() == 0 {
        Seq::empty()
    } else if row.len() == 1 {
        pair_text(row[0])
    } else {
        row_text(row.drop_last()) + seq![' '] + pair_text(row.last())
    }
}

/// How a command, or a notification, with that name and that row is written.
pub open spec fn line_text(name: Seq<char>, row: Row) -> Seq<char> {
    if row.len() == 0 {
        name
    } else {
        name + seq![' '] + row_text(row)
    }
}

/// Whether `key` can stand in front of a `=`.
pub open spec fn valid_key(key: Seq<char>) -> bool {
    !key.contains(' ') && !key.contains('=') && !key.contains('|')
}

pub open spec fn valid_keys(row: Row) -> bool {
    forall|i: int| 0 <= i < row.len() ==> valid_key(#[trigger] row[i].0)
}

/// A command with its arguments.
#[derive(Debug)]
pub struct Command {
    pub name: String,
    pub args: Properties,
}

impl Command {
    /// A command without arguments.
    pub fn new(name: &str) -> (command: Command)
        ensures
            command.name@ == name@,
            command.args@ == Seq::<(Seq<char>, Seq<char>)>::empty(),
    {
        let command = Command {
            name: name.to_owned(),
            args: Properties { entries: Vec::new() },
        };
        assert(command.args@ == Seq::<(Seq<char>, Seq<char>)>::empty());
        command
    }

    /// The command with one more argument behind the others.
    pub fn arg(self, key: &str, value: &str) -> (command: Command)
        ensures
            command.name@ == self.name@,
            command.args@ == self.args@.push((key@, value@)),
    {
        let mut command = self;
        command.args.entries.push(Property { key: key.to_owned(), value: value.to_owned() });
        assert(command.args@ == self.args@.push((key@, value@)));
        command
    }

    /// The line that the command is sent as, without what ends the line.
    pub fn to_line(&self) -> (line: String)
        ensures
            line@ == line_text(self.name@, self.args@),
    {
        let mut line: String = self.name.clone();
        let mut i: usize = 0;
        while i < self.args.entries.len()
            invariant
                i <= self.args.entries@.len(),
                self.args@.len() == self.args.entries@.len(),
                line@ == line_text(self.name@, self.args@.take(i as int)),
            decreases self.args.entries@.len() - i,
        {
            let property: &Property = &self.args.entries[i];
            line.push(' ');
            line.append(property.key.as_str());
            line.push('=');
            escape::escape_into(property.value.as_str(), &mut line);
            proof {
                let done = self.args@.take(i as int);
                let more = self.args@.take(i + 1);
                assert(more.drop_last() == done);
                assert(more.last() == property@);
                if i == 0 {
                    assert(line@ == self.name@ + seq![' '] + pair_text(property@));
                } else {
                    assert(line@ == self.name@ + seq![' '] + (row_text(done) + seq![' ']
                        + pair_text(property@)));
                }
            }
            i += 1;
        }
        assert(self.args@.take(i as int) == self.args@);
        line
    }
}

proof fn lemma_pair_text(pair: (Seq<char>, Seq<char>))
    requires
        valid_key(pair.0),
    ensures
        !pair_text(pair).contains(' '),
        !pair_text(pair).contains('|'),
        text::before(pair_text(pair), '=') == pair.0,
        escape::unescaped(text::after(pair_text(pair), '=')) == Some(pair.1),
{
    let raw = escape::escaped(pair.1);
    escape::law_escaped_has_no_separator(pair.1);
    escape::law_unescape_undoes_escape(pair.1);
    text::lemma_cut(pair.0, '=', raw);
    text::lemma_concat_contains(pair.0, seq!['='], ' ');
    text::lemma_concat_contains(pair.0 + seq!['='], raw, ' ');
    text::lemma_concat_contains(pair.0, seq!['='], '|');
    text::lemma_concat_contains(pair.0 + seq!['='], raw, '|');
}

proof fn lemma_row_text_front(row: Row)
    requires
        row.len() > 1,
    ensures
        row_text(row) == pair_text(row[0]) + seq![' '] + row_text(row.drop_first()),
    decreases row.len(),
{
    let tail = row.drop_first();
    if row.len() == 2 {
        assert(row.drop_last().len() == 1);
        assert(row_text(row.drop_last()) == pair_text(row[0]));
        assert(row_text(tail) == pair_text(tail[0]));
    } else {
        lemma_row_text_front(row.drop_last());
        assert(row.drop_last().drop_first() == tail.drop_last());
        assert(row_text(tail) == row_text(tail.drop_last()) + seq![' '] + pair_text(tail.last()));
        assert(row_text(row) == row_text(row.drop_last()) + seq![' '] + pair_text(row.last()));
        assert(row_text(row) == pair_text(row[0]) + seq![' '] + row_text(tail));
    }
}

proof fn lemma_row_text_separators(row: Row)
    requires
        valid_keys(row),
    ensures
        !row_text(row).contains('|'),
    decreases row.len(),
{
    if row.len() > 0 {
        let front = row_text(row.drop_last());
        let last = pair_text(row.last());
        assert(valid_key(row[row.len() - 1].0));
        lemma_pair_text(row.last());
        assert forall|i: int| 0 <= i < row.drop_last().len() implies valid_key(
            #[trigger] row.drop_last()[i].0,
        ) by {
            assert(valid_key(row[i].0));
        }
        lemma_row_text_separators(row.drop_last());
        text::lemma_concat_contains(front, seq![' '], '|');
        text::lemma_concat_contains(front + seq![' '], last, '|');
    }
}

/// A row that was written reads back as itself.
pub proof fn law_row_reads_back(row: Row)
    requires
        valid_keys(row),
    ensures
        properties::row_of(row_text(row)) == Ok::<Row, crate::error::ParseErrorView>(row),
    decreases row.len(),
{
    if row.len() > 0 {
        let pair = pair_text(row[0]);
        assert(valid_key(row[0].0));
        lemma_pair_text(row[0]);
        let tail = row.drop_first();
        assert forall|i: int| 0 <= i < tail.len() implies valid_key(#[trigger] tail[i].0) by {
            assert(valid_key(row[i + 1].0));
        }
        law_row_reads_back(tail);
        if row.len() == 1 {
            text::lemma_uncut(pair, ' ');
            assert(tail == Seq::<(Seq<char>, Seq<char>)>::empty());
        } else {
            lemma_row_text_front(row);
            text::lemma_cut(pair, ' ', row_text(tail));
        }
        assert(seq![row[0]] + tail == row);
    } else {
        assert(row == Seq::<(Seq<char>, Seq<char>)>::empty());
    }
}

/// A line that was written reads back as its name and its row: the first word is
/// the name, and the row behind it holds what was written, whatever the values
/// hold.
pub proof fn law_line_reads_back(name: Seq<char>, row: Row)
    requires
        !name.contains(' '),
        valid_keys(row),
    ensures
        text::before(line_text(name, row), ' ') == name,
        decoder::value_of::<Properties>(Some(text::after(line_text(name, row), ' '))) == Ok::<
            Row,
            crate::error::ParseErrorView,
        >(row),
{
    law_row_reads_back(row);
    lemma_row_text_separators(row);
    text::lemma_uncut(row_text(row), '|');
    if row.len() == 0 {
        text::lemma_uncut(name, ' ');
    } else {
        text::lemma_cut(name, ' ', row_text(row));
    }
}

/// How a list of rows is written.
pub open spec fn list_text(rows: Seq<Row>) -> Seq<char>
    decreases rows.len(),
{
    if rows.len() == 0 {
        Seq::empty()
    } else if rows.len() == 1 {
        row_text(rows[0])
    } else {
        row_text(rows[0]) + seq!['|'] + list_text(rows.drop_first())
    }
}

/// A list of rows that was written reads back as itself, row by row.
pub proof fn law_list_reads_back(rows: Seq<Row>)
    requires
        forall|i: int| 0 <= i < rows.len() ==> valid_keys(#[trigger] rows[i]) && rows[i].len() > 0,
    ensures
        decoder::values_of::<Properties>(list_text(rows)) == Ok::<
            Seq<Row>,
            crate::error::ParseErrorView,
        >(rows),
    decreases rows.len(),
{
    if rows.len() > 0 {
        let first = row_text(rows[0]);
        let tail = rows.drop_first();
        assert(valid_keys(rows[0]) && rows[0].len() > 0);
        law_row_reads_back(rows[0]);
        lemma_row_text_separators(rows[0]);
        assert(first.len() > 0);
        assert forall|i: int| 0 <= i < tail.len() implies valid_keys(#[trigger] tail[i])
            && tail[i].len() > 0 by {
            assert(tail[i] == rows[i + 1]);
        }
        law_list_reads_back(tail);
        if rows.len() == 1 {
            text::lemma_uncut(first, '|');
            assert(tail == Seq::<Row>::empty());
        } else {
            text::lemma_cut(first, '|', list_text(tail));
        }
        assert(seq![rows[0]] + tail == rows);
    } else {
        assert(rows == Seq::<Row>::empty());
    }
}

/// A line holds a character that ends a line only where its name or a key does:
/// no value can end it early.
pub proof fn law_values_do_not_end_a_line(name: Seq<char>, row: Row, end: char)
    requires
        end == '\n' || end == '\r',
        !name.contains(end),
        forall|i: int| 0 <= i < row.len() ==> !(#[trigger] row[i].0).contains(end),
    ensures
        !line_text(name, row).contains(end),
    decreases row.len(),
{
    if row.len() > 0 {
        let front = row.drop_last();
        let pair = row.last();
        assert forall|i: int| 0 <= i < front.len() implies !(#[trigger] front[i].0).contains(
            end,
        ) by {
            assert(!row[i].0.contains(end));
        }
        law_values_do_not_end_a_line(name, front, end);
        assert(!row[row.len() - 1].0.contains(end));
        escape::law_escaped_has_no_separator(pair.1);
        text::lemma_concat_contains(pair.0, seq!['='], end);
        text::lemma_concat_contains(pair.0 + seq!['='], escape::escaped(pair.1), end);
        assert(line_text(name, row) == line_text(name, front) + seq![' '] + pair_text(pair));
        text::lemma_concat_contains(line_text(name, front), seq![' '], end);
        text::lemma_concat_contains(line_text(name, front) + seq![' '], pair_text(pair), end);
    }
}

/// A line is the name, and for each property a blank, the key, `=` and the written
/// value, in order. Rows are written without a blank in front, and lists of rows
/// with a separator between them.
pub proof fn law_lines_are_written_property_by_property(
    name: Seq<char>,
    row: Row,
    key: Seq<char>,
    value: Seq<char>,
    rows: Seq<Row>,
)
    ensures
        line_text(name, Seq::empty()) == name,
        line_text(name, row.push((key, value))) == line_text(name, row) + seq![' '] + key
            + seq!['='] + escape::escaped(value),
        row_text(seq![(key, value)]) == key + seq!['='] + escape::escaped(value),
        line_text(name, row.push((key, value))) == name + seq![' '] + row_text(
            row.push((key, value)),
        ),
        valid_key(key) <==> !key.contains(' ') && !key.contains('=') && !key.contains('|'),
        list_text(seq![row]) == row_text(row),
        rows.len() > 0 ==> list_text(seq![row] + rows) == row_text(row) + seq!['|'] + list_text(
            rows,
        ),
{
    let more = row.push((key, value));
    let pair = pair_text((key, value));
    assert(more.drop_last() == row);
    assert(more.last() == (key, value));
    if row.len() == 0 {
        assert(row_text(more) == pair);
        assert(name + seq![' '] + pair == name + seq![' '] + key + seq!['='] + escape::escaped(
            value,
        ));
    } else {
        assert(name + seq![' '] + (row_text(row) + seq![' '] + pair) == name + seq![' '] + row_text(
            row,
        ) + seq![' '] + key + seq!['='] + escape::escaped(value));
    }
    assert((seq![row] + rows).drop_first() == rows);
    assert((seq![row] + rows)[0] == row);
}

/// A list takes every row of a written list behind what it held, in order: none is
/// lost, and it grows by as many as were written.
pub proof fn law_written_rows_are_appended(held: Seq<Row>, rows: Seq<Row>)
    requires
        forall|i: int| 0 <= i < rows.len() ==> valid_keys(#[trigger] rows[i]) && rows[i].len() > 0,
    ensures
        Vec::<Properties>::filled(held, Some(list_text(rows))) == Ok::<
            Seq<Row>,
            crate::error::ParseErrorView,
        >(held + rows),
{
    law_list_reads_back(rows);
}

/// A written row reads back as itself where one value is read, also with more rows
/// behind it.
pub proof fn law_first_row_reads_back(row: Row, rest: Seq<char>)
    requires
        valid_keys(row),
    ensures
        decoder::value_of::<Properties>(Some(row_text(row))) == Ok::<
            Row,
            crate::error::ParseErrorView,
        >(row),
        decoder::value_of::<Properties>(Some(row_text(row) + seq!['|'] + rest)) == Ok::<
            Row,
            crate::error::ParseErrorView,
        >(row),
        decoder::behind_row(Some(row_text(row) + seq!['|'] + rest)) == Some(rest),
{
    law_row_reads_back(row);
    lemma_row_text_separators(row);
    decoder::law_value_is_read_from_one_row::<Properties>(row_text(row), rest);
}

} // verus!
