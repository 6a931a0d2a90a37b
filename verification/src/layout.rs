//! Measures for drawing: how high a row of the table is, and where the
//! terminal's cursor stands in the filter field.

use crate::connection::{texts, SocketInfoWithProcName};
use crate::filter::FilterField;
use unicode_width::UnicodeWidthStr;
use vstd::prelude::*;
use vstd::seq_lib::*;

verus! {

/// The number of columns of the terminal that a text takes when it is shown.
pub uninterp spec fn display_width(text: Seq<char>) -> nat;

/// The width of a text in columns, by `UnicodeWidthStr::width` of
/// `unicode-width`: what that crate's tables give for the text.
#[verifier::external_body]
fn text_width(text: &str) -> (width: usize)
    ensures
        width == display_width(text@),
{
    UnicodeWidthStr::width(text)
}

/// The column behind a text of `width` columns that starts one column after
/// `left`, the border of its field.
pub open spec fn column_behind(left: u16, width: nat) -> int {
    left + width + 1
}

/// The column of the cursor behind a text of `width` columns in a field whose
/// border is at column `left`, if the terminal has such a column.
pub fn cursor_behind(left: u16, width: usize) -> (column: Option<u16>)
    ensures
        column == if column_behind(left, width as nat) <= u16::MAX {
            Some(column_behind(left, width as nat) as u16)
        } else {
            None
        },
{
    let limit: usize = 0xffff;
    if width >= limit {
        return None;
    }
    let room: u16 = 0xffff - (width as u16) - 1;
    if left > room {
        None
    } else {
        Some(left + (width as u16) + 1)
    }
}

/// The column of the cursor in the filter field whose border is at column
/// `left`: behind the filter text, if the terminal has such a column.
pub fn filter_cursor_column(filter: &FilterField, left: u16) -> (column: Option<u16>)
    ensures
        column == if column_behind(left, display_width(filter.input@)) <= u16::MAX {
            Some(column_behind(left, display_width(filter.input@)) as u16)
        } else {
            None
        },
{
    cursor_behind(left, text_width(filter.input.as_str()))
}

/// The test for a character being a line break.
pub open spec fn is_line_break() -> spec_fn(char) -> bool {
    |c: char| c == '\n'
}

/// How many line breaks a text holds.
pub open spec fn line_breaks(text: Seq<char>) -> nat {
    text.filter(is_line_break()).len()
}

/// The largest number of line breaks that one of the cells holds.
pub open spec fn most_line_breaks(cells: Seq<Seq<char>>) -> nat
    decreases cells.len(),
{
    if cells.len() == 0 {
        0
    } else if line_breaks(cells.last()) > most_line_breaks(cells.drop_last()) {
        line_breaks(cells.last())
    } else {
        most_line_breaks(cells.drop_last())
    }
}

/// The height of a row with these cells, in lines of the terminal: one more
/// than the most line breaks in a cell, and at most `u16::MAX`.
pub open spec fn height_of(cells: Seq<Seq<char>>) -> u16 {
    if most_line_breaks(cells) + 1 <= u16::MAX {
        (most_line_breaks(cells) + 1) as u16
    } else {
        u16::MAX
    }
}

/// How many line breaks a text holds, counted up to `u16::MAX`.
pub fn count_line_breaks(text: &str) -> (count: u16)
    ensures
        count == if line_breaks(text@) <= u16::MAX {
            line_breaks(text@) as u16
        } else {
            u16::MAX
        },
{
    let mut count: u16 = 0;
    proof {
        reveal(Seq::filter);
        assert(text@.take(0) =~= Seq::<char>::empty());
    }
    for c in it: text.chars()
        invariant
            it.seq() == text@,
            count == if line_breaks(text@.take(it.index() as int)) <= u16::MAX {
                line_breaks(text@.take(it.index() as int)) as u16
            } else {
                u16::MAX
            },
    {
        proof {
            let seen = text@.take(it.index() as int);
            assert(text@.take(it.index() + 1) =~= seen.push(c));
            seen.lemma_filter_push(c, is_line_break());
        }
        if c == '\n' && count < 0xffff {
            count = count + 1;
        }
    }
    assert(text@.take(text@.len() as int) =~= text@);
    count
}

/// The height of the row that a record is shown in.
pub fn row_height(record: &SocketInfoWithProcName) -> (height: u16)
    ensures
        height == height_of(record@.cells),
{
    let cells = &record.printable_string;
    let mut most: u16 = 0;
    let mut i: usize = 0;
    assert(texts(cells@).take(0) =~= Seq::<Seq<char>>::empty());
    while i < cells.len()
        invariant
            i <= cells.len(),
            most == if most_line_breaks(texts(cells@).take(i as int)) <= u16::MAX {
                most_line_breaks(texts(cells@).take(i as int)) as u16
            } else {
                u16::MAX
            },
        decreases cells.len() - i,
    {
        proof {
            let seen = texts(cells@).take(i + 1);
            assert(seen.drop_last() =~= texts(cells@).take(i as int));
            assert(seen.last() == cells@[i as int]@);
        }
        let breaks = count_line_breaks(cells[i].as_str());
        if breaks > most {
            most = breaks;
        }
        i = i + 1;
    }
    assert(texts(cells@).take(cells.len() as int) =~= texts(cells@));
    if most < 0xffff {
        most + 1
    } else {
        most
    }
}

} // verus!
