use crate::record::PkgInfo;
use vstd::prelude::*;

verus! {

/// The cursor after moving down a list of `len` rows: wraps from the last row to the first;
/// with no row selected, selects the first.
pub open spec fn next_cursor(cur: Option<usize>, len: nat) -> Option<usize> {
    match cur {
        None => Some(0),
        Some(i) => if i + 1 >= len {
            Some(0)
        } else {
            Some((i + 1) as usize)
        },
    }
}

/// The cursor after moving up a list of `len` rows: wraps from the first row to the last;
/// with no row selected, selects the first.
pub open spec fn previous_cursor(cur: Option<usize>, len: nat) -> Option<usize> {
    match cur {
        None => Some(0),
        Some(i) => if i == 0 {
            last_cursor(len)
        } else {
            Some((i - 1) as usize)
        },
    }
}

/// The cursor on the last of `len` rows; on the first position when there is no row.
pub open spec fn last_cursor(len: nat) -> Option<usize> {
    if len == 0 {
        Some(0)
    } else {
        Some((len - 1) as usize)
    }
}

pub fn next_position(cur: Option<usize>, len: usize) -> (r: Option<usize>)
    ensures
        r == next_cursor(cur, len as nat),
{
    match cur {
        None => Some(0),
        Some(i) => if i >= len || len - i <= 1 {
            Some(0)
        } else {
            Some(i + 1)
        },
    }
}

pub fn previous_position(cur: Option<usize>, len: usize) -> (r: Option<usize>)
    ensures
        r == previous_cursor(cur, len as nat),
{
    match cur {
        None => Some(0),
        Some(i) => if i == 0 {
            last_position(len)
        } else {
            Some(i - 1)
        },
    }
}

pub fn last_position(len: usize) -> (r: Option<usize>)
    ensures
        r == last_cursor(len as nat),
{
    if len == 0 {
        Some(0)
    } else {
        Some(len - 1)
    }
}

/// The package table: the records of the last pass and the selected row.
pub struct PkgInfoTable {
    pub cursor: Option<usize>,
    pub data: Vec<PkgInfo>,
}

impl PkgInfoTable {
    /// An empty table with no row selected.
    pub fn new() -> (r: PkgInfoTable)
        ensures
            r.cursor is None,
            r.data@.len() == 0,
    {
        PkgInfoTable { cursor: None, data: Vec::new() }
    }

    pub fn title(&self) -> (r: &'static str)
        ensures
            r@ == "Arch Linux RISC-V Packages Status"@,
    {
        "Arch Linux RISC-V Packages Status"
    }

    pub fn next(&mut self)
        ensures
            final(self).cursor == next_cursor(old(self).cursor, old(self).data@.len()),
            final(self).data == old(self).data,
    {
        self.cursor = next_position(self.cursor, self.data.len());
    }

    pub fn previous(&mut self)
        ensures
            final(self).cursor == previous_cursor(old(self).cursor, old(self).data@.len()),
            final(self).data == old(self).data,
    {
        self.cursor = previous_position(self.cursor, self.data.len());
    }

    pub fn beginning(&mut self)
        ensures
            final(self).cursor == Some(0usize),
            final(self).data == old(self).data,
    {
        self.cursor = Some(0);
    }

    pub fn end(&mut self)
        ensures
            final(self).cursor == last_cursor(old(self).data@.len()),
            final(self).data == old(self).data,
    {
        self.cursor = last_position(self.data.len());
    }
}

impl Default for PkgInfoTable {
    fn default() -> (r: PkgInfoTable)
        ensures
            r.cursor is None,
            r.data@.len() == 0,
    {
        PkgInfoTable::new()
    }
}

} // verus!
