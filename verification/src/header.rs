//! The header of the connection table: the titles of its columns, in the
//! order of a record's cells.

use crate::connection::COLUMNS;
use vstd::prelude::*;

verus! {

/// One column of the table's header: its title and its width in cells of
/// the terminal.
pub struct TableHeaderItem<'a> {
    pub text: &'a str,
    pub width: u16,
}

/// The header of the table, column by column.
pub struct TableHeader<'a> {
    pub items: Vec<TableHeaderItem<'a>>,
}

/// The titles of the columns, in the order of a record's cells.
pub open spec fn column_titles() -> Seq<Seq<char>> {
    seq![
        "Protocol"@,
        "Local Address"@,
        "Local Port"@,
        "Remote Address"@,
        "Remote Port"@,
        "State"@,
        "PID"@,
        "Process Name"@,
    ]
}

impl TableHeader<'static> {
    /// The header of the connection table, each column with the width that
    /// `widths` gives it.
    pub fn for_connections(widths: [u16; 8]) -> (header: TableHeader<'static>)
        ensures
            header.items@.len() == COLUMNS,
            forall|i: int|
                0 <= i < 8 ==> (#[trigger] header.items@[i]).text@ == column_titles()[i]
                    && header.items@[i].width == widths@[i],
    {
        let mut items: Vec<TableHeaderItem<'static>> = Vec::new();
        items.push(TableHeaderItem { text: "Protocol", width: widths[0] });
        items.push(TableHeaderItem { text: "Local Address", width: widths[1] });
        items.push(TableHeaderItem { text: "Local Port", width: widths[2] });
        items.push(TableHeaderItem { text: "Remote Address", width: widths[3] });
        items.push(TableHeaderItem { text: "Remote Port", width: widths[4] });
        items.push(TableHeaderItem { text: "State", width: widths[5] });
        items.push(TableHeaderItem { text: "PID", width: widths[6] });
        items.push(TableHeaderItem { text: "Process Name", width: widths[7] });
        TableHeader { items }
    }
}

} // verus!
