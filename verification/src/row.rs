//! Rows of a result set, and how a field of one is found.

use std::sync::Arc;

use vstd::prelude::*;

use crate::text::same_text;
use crate::value;
use crate::value::{TursoValue, Value, ValueView};

verus! {

/// The views of a list of names.
pub open spec fn name_views(names: Seq<String>) -> Seq<Seq<char>> {
    Seq::new(names.len(), |i: int| names[i]@)
}

/// The position of the first of `names` that is `name`.
pub open spec fn first_position(names: Seq<Seq<char>>, name: Seq<char>) -> Option<int>
    decreases names.len(),
{
    if names.len() == 0 {
        None
    } else if names[0] == name {
        Some(0)
    } else {
        match first_position(names.drop_first(), name) {
            Some(i) => Some(i + 1),
            None => None,
        }
    }
}

/// What [`first_position`] means: a position that holds the name with none
/// before it that does, and `None` where no position holds it.
pub proof fn first_position_is_first(names: Seq<Seq<char>>, name: Seq<char>)
    ensures
        match first_position(names, name) {
            Some(i) => 0 <= i < names.len() && names[i] == name && forall|k: int|
                0 <= k < i ==> names[k] != name,
            None => !names.contains(name),
        },
    decreases names.len(),
{
    if names.len() > 0 && names[0] != name {
        let rest = names.drop_first();
        first_position_is_first(rest, name);
        assert forall|k: int| 0 < k < names.len() implies #[trigger] names[k] == rest[k - 1] by {}
    }
}

/// The position `i`, where `count` fields reach so far.
pub fn position_in(count: usize, i: usize) -> (position: Option<usize>)
    ensures
        position == (if i < count {
            Some(i)
        } else {
            None
        }),
{
    if i < count {
        Some(i)
    } else {
        None
    }
}

/// The position of the first of `names` that is `name`.
pub fn position_of(names: &[String], name: &str) -> (position: Option<usize>)
    ensures
        match position {
            Some(i) => first_position(name_views(names@), name@) == Some(i as int) && i
                < names@.len(),
            None => first_position(name_views(names@), name@) is None,
        },
{
    let ghost all = name_views(names@);
    let mut i: usize = 0;
    assert(all.skip(0) =~= all);
    while i < names.len()
        invariant
            i <= names@.len(),
            all == name_views(names@),
            first_position(all, name@) == (match first_position(all.skip(i as int), name@) {
                Some(k) => Some(k + i),
                None => None,
            }),
        decreases names@.len() - i,
    {
        assert(all.skip(i as int)[0] == names@[i as int]@);
        assert(all.skip(i as int).drop_first() =~= all.skip(i + 1));
        if same_text(names[i].as_str(), name) {
            return Some(i);
        }
        i = i + 1;
    }
    None
}

/// A row whose fields are found by an index of type `I`.
pub trait RowIndex<I> {
    /// The position that an index finds.
    spec fn position(&self, index: I) -> Option<int>;

    /// The position that an index finds, where it finds one.
    fn idx(&self, index: I) -> (position: Option<usize>)
        ensures
            match position {
                Some(i) => self.position(index) == Some(i as int),
                None => self.position(index) is None,
            },
    ;
}

/// One row of a result set. The names of the columns are shared by every row.
#[derive(Debug)]
pub struct TursoRow {
    values: Vec<Value>,
    column_names: Arc<Vec<String>>,
}

/// What a [`TursoRow`] holds.
pub struct RowView {
    pub values: Seq<ValueView>,
    pub names: Seq<Seq<char>>,
}

impl View for TursoRow {
    type V = RowView;

    closed spec fn view(&self) -> RowView {
        RowView { values: value::views(self.values@), names: name_views(self.column_names@) }
    }
}

impl RowIndex<usize> for TursoRow {
    open spec fn position(&self, index: usize) -> Option<int> {
        if index < self@.values.len() {
            Some(index as int)
        } else {
            None
        }
    }

    fn idx(&self, index: usize) -> (position: Option<usize>) {
        position_in(self.values.len(), index)
    }
}

impl<'n> RowIndex<&'n str> for TursoRow {
    open spec fn position(&self, index: &'n str) -> Option<int> {
        first_position(self@.names, index@)
    }

    fn idx(&self, index: &'n str) -> (position: Option<usize>) {
        position_of(self.column_names.as_slice(), index)
    }
}

impl TursoRow {
    /// A row of these values under these column names.
    pub fn new(values: Vec<Value>, column_names: Arc<Vec<String>>) -> (row: Self)
        ensures
            row@.values == value::views(values@),
            row@.names == name_views(column_names@),
    {
        TursoRow { values, column_names }
    }

    /// How many fields the row has.
    pub fn field_count(&self) -> (n: usize)
        ensures
            n == self@.values.len(),
    {
        self.values.len()
    }

    /// The field that an index finds.
    pub fn get<I>(&self, index: I) -> (field: Option<TursoField<'_>>) where Self: RowIndex<I>
        ensures
            match field {
                Some(f) => self.position(index) == Some(f.position()) && f.row_view() == self@,
                None => self.position(index) is None,
            },
    {
        match self.idx(index) {
            Some(col) => Some(TursoField { row: self, col }),
            None => None,
        }
    }
}

/// One cell of a [`TursoRow`], addressed by its position.
#[derive(Debug)]
pub struct TursoField<'f> {
    row: &'f TursoRow,
    col: usize,
}

impl<'f> TursoField<'f> {
    /// The position of the cell.
    pub closed spec fn position(self) -> int {
        self.col as int
    }

    /// The row that the cell belongs to.
    pub closed spec fn row_view(self) -> RowView {
        self.row@
    }

    /// The name of the column, where the row has one for this position.
    pub fn field_name(&self) -> (name: Option<&str>)
        ensures
            match name {
                Some(text) => 0 <= self.position() < self.row_view().names.len() && text@
                    == self.row_view().names[self.position()],
                None => self.position() >= self.row_view().names.len(),
            },
    {
        if self.col < self.row.column_names.len() {
            Some(self.row.column_names[self.col].as_str())
        } else {
            None
        }
    }

    /// The value, unless it is NULL.
    pub fn value(&self) -> (v: Option<TursoValue<'_>>)
        ensures
            match v {
                Some(inner) => 0 <= self.position() < self.row_view().values.len() && inner@
                    == self.row_view().values[self.position()] && inner@ !is Null,
                None => self.position() >= self.row_view().values.len()
                    || self.row_view().values[self.position()] is Null,
            },
    {
        if self.col < self.row.values.len() {
            let cell: &Value = &self.row.values[self.col];
            match cell {
                Value::Null => None,
                _ => Some(TursoValue::new(cell)),
            }
        } else {
            None
        }
    }
}

/// A position finds the field that stands there, and none behind the last
/// one. A name finds the first column of that name.
pub proof fn fields_are_found_by_position_and_by_name(row: TursoRow, index: usize, name: &str)
    ensures
        RowIndex::<usize>::position(&row, index) is Some <==> index < row@.values.len(),
        RowIndex::<usize>::position(&row, index) matches Some(i) ==> i == index,
        RowIndex::<&str>::position(&row, name) is Some <==> row@.names.contains(name@),
        RowIndex::<&str>::position(&row, name) matches Some(i) ==> 0 <= i < row@.names.len()
            && row@.names[i] == name@ && forall|k: int| 0 <= k < i ==> row@.names[k] != name@,
{
    first_position_is_first(row@.names, name@);
}

} // verus!
