//! A row that the PostgreSQL driver handed over.

use vstd::prelude::*;

use crate::row;
use crate::row::{position_in, position_of, RowIndex};

verus! {

/// Whether values of a type can be read: its object id is known.
pub fn accepts(oid: u32) -> (yes: bool)
    ensures
        yes == (oid != 0),
{
    oid != 0
}

/// A cell and the object id of its type.
#[derive(Debug, PartialEq, Eq)]
pub struct PgCell {
    pub raw: Option<Vec<u8>>,
    pub type_oid: u32,
}

/// A row that the driver handed over: the names of its columns and their
/// cells.
#[derive(Debug)]
pub struct PgRow {
    pub names: Vec<String>,
    pub cells: Vec<PgCell>,
}

impl PgRow {
    /// There is a name to every cell.
    pub open spec fn well_formed(&self) -> bool {
        self.names@.len() == self.cells@.len()
    }
}

impl RowIndex<usize> for PgRow {
    open spec fn position(&self, index: usize) -> Option<int> {
        if index < self.cells@.len() {
            Some(index as int)
        } else {
            None
        }
    }

    fn idx(&self, index: usize) -> (position: Option<usize>) {
        position_in(self.cells.len(), index)
    }
}

impl<'n> RowIndex<&'n str> for PgRow {
    open spec fn position(&self, index: &'n str) -> Option<int> {
        row::first_position(row::name_views(self.names@), index@)
    }

    fn idx(&self, index: &'n str) -> (position: Option<usize>) {
        position_of(self.names.as_slice(), index)
    }
}

/// One field of a [`PgRow`].
#[derive(Debug)]
pub struct PgField<'a> {
    pub cell: &'a PgCell,
    pub name: &'a str,
}

impl PgRow {
    /// How many fields the row has.
    pub fn field_count(&self) -> (n: usize)
        ensures
            n == self.cells@.len(),
    {
        self.cells.len()
    }

    /// The field that an index finds in the row.
    pub fn get<I>(&self, index: I) -> (field: Option<PgField<'_>>) where Self: RowIndex<I>
        requires
            self.well_formed(),
        ensures
            match field {
                Some(f) => self.position(index) matches Some(i) && 0 <= i < self.cells@.len()
                    && *f.cell == self.cells@[i] && f.name@ == self.names@[i]@,
                None => self.position(index) matches Some(i) ==> i >= self.cells@.len(),
            },
    {
        let i: usize = match self.idx(index) {
            Some(i) => i,
            None => {
                return None;
            },
        };
        if i >= self.cells.len() {
            return None;
        }
        Some(PgField { cell: &self.cells[i], name: self.names[i].as_str() })
    }
}

impl<'a> PgField<'a> {
    /// The name of the column.
    pub fn field_name(&self) -> (name: Option<&str>)
        ensures
            name matches Some(text) && text@ == self.name@,
    {
        Some(self.name)
    }

    /// The raw bytes and the object id of their type, unless the cell is
    /// NULL.
    pub fn value(&self) -> (v: Option<(&[u8], u32)>)
        requires
            self.cell.type_oid != 0,
        ensures
            match v {
                Some((bytes, oid)) => self.cell.raw matches Some(raw) && bytes@ == raw@ && oid
                    == self.cell.type_oid,
                None => self.cell.raw is None,
            },
    {
        match &self.cell.raw {
            Some(raw) => Some((raw.as_slice(), self.cell.type_oid)),
            None => None,
        }
    }
}

/// A position finds the cell that stands there, and none behind the last one.
/// A name finds the first column of that name.
pub proof fn cells_are_found_by_position_and_by_name(row: PgRow, index: usize, name: &str)
    ensures
        RowIndex::<usize>::position(&row, index) is Some <==> index < row.cells@.len(),
        RowIndex::<usize>::position(&row, index) matches Some(i) ==> i == index,
        RowIndex::<&str>::position(&row, name) matches Some(i) ==> 0 <= i < row.names@.len()
            && row.names@[i]@ == name@ && forall|k: int|
            0 <= k < i ==> (#[trigger] row.names@[k])@ != name@,
        RowIndex::<&str>::position(&row, name) is None ==> forall|k: int|
            0 <= k < row.names@.len() ==> (#[trigger] row.names@[k])@ != name@,
{
    let names = row::name_views(row.names@);
    row::first_position_is_first(names, name@);
    assert forall|k: int| 0 <= k < row.names@.len() implies (#[trigger] row.names@[k])@
        == names[k] by {}
}

} // verus!
