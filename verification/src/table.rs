//! The connection list and its cursor.

use crate::connection::SocketInfoWithProcName;
use vstd::prelude::*;

verus! {

/// Where the cursor stands after a step forward in a list of `len` records:
/// one further, or on the first record from the last one, from beyond the
/// list or from no selection. In an empty list it stays as it is.
pub open spec fn after_next(len: nat, cursor: Option<usize>) -> Option<usize> {
    if len == 0 {
        cursor
    } else {
        match cursor {
            Some(i) => if i + 1 < len {
                Some((i + 1) as usize)
            } else {
                Some(0usize)
            },
            None => Some(0usize),
        }
    }
}

/// Where the cursor stands after a step back in a list of `len` records: one
/// before, or on the last record from the first one, from beyond the list or
/// from no selection. In an empty list it stays as it is.
pub open spec fn after_previous(len: nat, cursor: Option<usize>) -> Option<usize> {
    if len == 0 {
        cursor
    } else {
        match cursor {
            Some(i) => if 0 < i <= len {
                Some((i - 1) as usize)
            } else {
                Some((len - 1) as usize)
            },
            None => Some((len - 1) as usize),
        }
    }
}

/// Where the cursor stands after a jump to the first record.
pub open spec fn after_first(len: nat, cursor: Option<usize>) -> Option<usize> {
    if len == 0 {
        cursor
    } else {
        Some(0usize)
    }
}

/// Where the cursor stands after a jump to the last record.
pub open spec fn after_last(len: nat, cursor: Option<usize>) -> Option<usize> {
    if len == 0 {
        cursor
    } else {
        Some((len - 1) as usize)
    }
}

/// Whether the cursor stands on a record of a list of `len` records.
pub open spec fn on_record(len: nat, cursor: Option<usize>) -> bool {
    cursor matches Some(i) && i < len
}

/// The list of connections that is shown, and the cursor that walks it.
///
/// The cursor is an index, not a record: when the list is replaced it keeps
/// its number, and may then stand beyond the end of the new list. `selected`
/// gives the cursor only while it stands on a record, and every move in a list
/// that is not empty puts it on one.
pub struct StatefulTable {
    pub cursor: Option<usize>,
    pub items: Vec<SocketInfoWithProcName>,
}

impl StatefulTable {
    /// A table of `items` with nothing selected.
    pub fn with_items(items: Vec<SocketInfoWithProcName>) -> (table: StatefulTable)
        ensures
            table.items == items,
            table.cursor is None,
    {
        StatefulTable { cursor: None, items }
    }

    /// Puts `items` in place of the list. The cursor keeps its number.
    pub fn replace_items(&mut self, items: Vec<SocketInfoWithProcName>)
        ensures
            final(self).items == items,
            final(self).cursor == old(self).cursor,
    {
        self.items = items;
    }

    /// The index of the selected record: the cursor, where it stands on a
    /// record of the list.
    pub fn selected(&self) -> (index: Option<usize>)
        ensures
            index == if on_record(self.items@.len(), self.cursor) {
                self.cursor
            } else {
                None
            },
    {
        match self.cursor {
            Some(i) => if i < self.items.len() {
                Some(i)
            } else {
                None
            },
            None => None,
        }
    }

    /// Moves the cursor one record forward, from the last record to the first.
    pub fn next(&mut self)
        ensures
            final(self).items == old(self).items,
            final(self).cursor == after_next(old(self).items@.len(), old(self).cursor),
            old(self).items@.len() > 0 ==> on_record(final(self).items@.len(), final(self).cursor),
            old(self).items@.len() > 0 && old(self).cursor == Some(
                (old(self).items@.len() - 1) as usize,
            ) ==> final(self).cursor == Some(0usize),
    {
        let len: usize = self.items.len();
        if len == 0 {
            return ;
        }
        let i: usize = match self.cursor {
            Some(i) => if i >= len - 1 {
                0
            } else {
                i + 1
            },
            None => 0,
        };
        self.cursor = Some(i);
    }

    /// Moves the cursor one record back, from the first record to the last.
    pub fn previous(&mut self)
        ensures
            final(self).items == old(self).items,
            final(self).cursor == after_previous(old(self).items@.len(), old(self).cursor),
            old(self).items@.len() > 0 ==> on_record(final(self).items@.len(), final(self).cursor),
            old(self).items@.len() > 0 && old(self).cursor == Some(0usize) ==> final(self).cursor
                == Some((old(self).items@.len() - 1) as usize),
    {
        let len: usize = self.items.len();
        if len == 0 {
            return ;
        }
        let i: usize = match self.cursor {
            Some(i) => if i == 0 || i > len {
                len - 1
            } else {
                i - 1
            },
            None => len - 1,
        };
        self.cursor = Some(i);
    }

    /// Moves the cursor to the first record.
    pub fn first(&mut self)
        ensures
            final(self).items == old(self).items,
            final(self).cursor == after_first(old(self).items@.len(), old(self).cursor),
    {
        if self.items.len() > 0 {
            self.cursor = Some(0);
        }
    }

    /// Moves the cursor to the last record.
    pub fn last(&mut self)
        ensures
            final(self).items == old(self).items,
            final(self).cursor == after_last(old(self).items@.len(), old(self).cursor),
    {
        let len: usize = self.items.len();
        if len > 0 {
            self.cursor = Some(len - 1);
        }
    }
}

/// A step forward and then a step back, or a step back and then a step
/// forward, bring a cursor that stands on a record back to where it was.
pub proof fn lemma_next_previous_cancel(len: nat, cursor: Option<usize>)
    requires
        len <= usize::MAX,
        on_record(len, cursor),
    ensures
        after_previous(len, after_next(len, cursor)) == cursor,
        after_next(len, after_previous(len, cursor)) == cursor,
{
}

/// The cursor wraps around: a step forward from the last record leads to the
/// first, and a step back from the first record leads to the last.
pub proof fn lemma_cursor_wraps(len: nat)
    requires
        0 < len <= usize::MAX,
    ensures
        after_next(len, Some((len - 1) as usize)) == Some(0usize),
        after_previous(len, Some(0usize)) == Some((len - 1) as usize),
{
}

/// Every move in a list that is not empty leaves the cursor on a record,
/// wherever it stood before; in an empty list no move changes it.
pub proof fn lemma_moves_land_on_records(len: nat, cursor: Option<usize>)
    requires
        len <= usize::MAX,
    ensures
        len > 0 ==> on_record(len, after_next(len, cursor)),
        len > 0 ==> on_record(len, after_previous(len, cursor)),
        len > 0 ==> on_record(len, after_first(len, cursor)),
        len > 0 ==> on_record(len, after_last(len, cursor)),
        len == 0 ==> after_next(len, cursor) == cursor && after_previous(len, cursor) == cursor
            && after_first(len, cursor) == cursor && after_last(len, cursor) == cursor,
{
}

} // verus!
