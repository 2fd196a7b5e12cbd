//! A row that the MySQL driver handed over, and the type that a reader is
//! told of each of its cells.

use mysql_common::proto::MySerialize;
use vstd::prelude::*;

use crate::row;
use crate::row::{position_in, position_of, RowIndex};

verus! {

/// The type of a column as the server names it.
#[derive(Clone, Copy, Debug, PartialEq, Eq, Structural)]
pub enum ColumnType {
    Decimal,
    Tiny,
    Short,
    Long,
    Float,
    Double,
    Null,
    Timestamp,
    LongLong,
    Int24,
    Date,
    Time,
    DateTime,
    Year,
    NewDate,
    VarChar,
    Bit,
    Timestamp2,
    DateTime2,
    Time2,
    TypedArray,
    Vector,
    Unknown,
    Json,
    NewDecimal,
    EnumType,
    SetType,
    TinyBlob,
    MediumBlob,
    LongBlob,
    Blob,
    VarString,
    String,
    Geometry,
}

/// The column is unsigned.
pub const UNSIGNED_FLAG: u16 = 32;

/// The column is binary.
pub const BINARY_FLAG: u16 = 128;

/// The column is an enum.
pub const ENUM_FLAG: u16 = 256;

/// The column is a set.
pub const SET_FLAG: u16 = 2048;

/// The type that a reader is told of a cell.
#[derive(Clone, Copy, Debug, PartialEq, Eq, Structural)]
pub enum MysqlType {
    Tiny,
    UnsignedTiny,
    Short,
    UnsignedShort,
    Long,
    UnsignedLong,
    LongLong,
    UnsignedLongLong,
    Float,
    Double,
    Numeric,
    Time,
    Date,
    DateTime,
    Timestamp,
    String,
    Blob,
    Bit,
    SetType,
    EnumType,
}

/// Whether a flag is set.
pub open spec fn flagged(flags: u16, flag: u16) -> bool {
    flags & flag == flag
}

/// Whether a column type carries text or bytes, as the flags say which.
pub open spec fn textual(column_type: ColumnType) -> bool {
    column_type is VarString || column_type is String || column_type is TinyBlob
        || column_type is MediumBlob || column_type is LongBlob || column_type is Blob
}

/// The type that a reader is told of a column. A few column types the server
/// does not send in a result; of those there is none.
pub open spec fn type_of_column(column_type: ColumnType, flags: u16) -> Option<MysqlType> {
    let unsigned = flagged(flags, UNSIGNED_FLAG);
    if textual(column_type) {
        Some(
            if flagged(flags, ENUM_FLAG) {
                MysqlType::EnumType
            } else if flagged(flags, SET_FLAG) {
                MysqlType::SetType
            } else if flagged(flags, BINARY_FLAG) {
                MysqlType::Blob
            } else {
                MysqlType::String
            },
        )
    } else {
        match column_type {
            ColumnType::NewDecimal | ColumnType::Decimal => Some(MysqlType::Numeric),
            ColumnType::Tiny => Some(
                if unsigned {
                    MysqlType::UnsignedTiny
                } else {
                    MysqlType::Tiny
                },
            ),
            ColumnType::Year | ColumnType::Short => Some(
                if unsigned {
                    MysqlType::UnsignedShort
                } else {
                    MysqlType::Short
                },
            ),
            ColumnType::Int24 | ColumnType::Long => Some(
                if unsigned {
                    MysqlType::UnsignedLong
                } else {
                    MysqlType::Long
                },
            ),
            ColumnType::LongLong => Some(
                if unsigned {
                    MysqlType::UnsignedLongLong
                } else {
                    MysqlType::LongLong
                },
            ),
            ColumnType::Float => Some(MysqlType::Float),
            ColumnType::Double => Some(MysqlType::Double),
            ColumnType::Timestamp => Some(MysqlType::Timestamp),
            ColumnType::Date => Some(MysqlType::Date),
            ColumnType::Time => Some(MysqlType::Time),
            ColumnType::DateTime => Some(MysqlType::DateTime),
            ColumnType::Bit => Some(MysqlType::Bit),
            ColumnType::Json => Some(MysqlType::String),
            _ => None,
        }
    }
}

/// Whether a column can come in a result.
pub fn can_convert(column_type: ColumnType) -> (yes: bool)
    ensures
        forall|flags: u16| yes == (#[trigger] type_of_column(column_type, flags) is Some),
{
    match column_type {
        ColumnType::Null
        | ColumnType::NewDate
        | ColumnType::VarChar
        | ColumnType::Timestamp2
        | ColumnType::DateTime2
        | ColumnType::Time2
        | ColumnType::TypedArray
        | ColumnType::Unknown
        | ColumnType::EnumType
        | ColumnType::SetType
        | ColumnType::Vector
        | ColumnType::Geometry => false,
        _ => true,
    }
}

/// The type that a reader is told of a column that can come in a result.
pub fn convert_type(column_type: ColumnType, column_flags: u16) -> (ty: MysqlType)
    requires
        type_of_column(column_type, column_flags) is Some,
    ensures
        Some(ty) == type_of_column(column_type, column_flags),
{
    let unsigned: bool = column_flags & UNSIGNED_FLAG == UNSIGNED_FLAG;
    match column_type {
        ColumnType::NewDecimal | ColumnType::Decimal => MysqlType::Numeric,
        ColumnType::Tiny => {
            if unsigned {
                MysqlType::UnsignedTiny
            } else {
                MysqlType::Tiny
            }
        },
        ColumnType::Year | ColumnType::Short => {
            if unsigned {
                MysqlType::UnsignedShort
            } else {
                MysqlType::Short
            }
        },
        ColumnType::Int24 | ColumnType::Long => {
            if unsigned {
                MysqlType::UnsignedLong
            } else {
                MysqlType::Long
            }
        },
        ColumnType::LongLong => {
            if unsigned {
                MysqlType::UnsignedLongLong
            } else {
                MysqlType::LongLong
            }
        },
        ColumnType::Float => MysqlType::Float,
        ColumnType::Double => MysqlType::Double,
        ColumnType::Timestamp => MysqlType::Timestamp,
        ColumnType::Date => MysqlType::Date,
        ColumnType::Time => MysqlType::Time,
        ColumnType::DateTime => MysqlType::DateTime,
        ColumnType::Bit => MysqlType::Bit,
        ColumnType::Json => MysqlType::String,
        _ => {
            if column_flags & ENUM_FLAG == ENUM_FLAG {
                MysqlType::EnumType
            } else if column_flags & SET_FLAG == SET_FLAG {
                MysqlType::SetType
            } else if column_flags & BINARY_FLAG == BINARY_FLAG {
                MysqlType::Blob
            } else {
                MysqlType::String
            }
        },
    }
}

/// One cell as the driver hands it over or takes it. The floats are held as
/// their IEEE-754 bit patterns.
#[derive(Debug, PartialEq, Eq)]
pub enum MysqlCell {
    Null,
    Bytes(Vec<u8>),
    Int(i64),
    UInt(u64),
    Float(u32),
    Double(u64),
    /// Year, month, day, hour, minute, second, microseconds.
    Date(u16, u8, u8, u8, u8, u8, u32),
    /// Is negative, days, hours, minutes, seconds, microseconds.
    Time(bool, u32, u8, u8, u8, u32),
}

/// Whether a [`MysqlTime`] is a point in time or a span.
#[derive(Clone, Copy, Debug, PartialEq, Eq, Structural)]
pub enum MysqlTimestampType {
    DateTime,
    Time,
}

/// A time as the MySQL client library lays it out.
#[derive(Clone, Copy, Debug, PartialEq, Eq, Structural)]
pub struct MysqlTime {
    pub year: u32,
    pub month: u32,
    pub day: u32,
    pub hour: u32,
    pub minute: u32,
    pub second: u32,
    pub second_part: u64,
    pub neg: bool,
    pub time_type: MysqlTimestampType,
    pub time_zone_displacement: i32,
}

/// What a reader gets of a cell: bytes, or a time in the client library's
/// layout.
#[derive(Debug, PartialEq, Eq)]
pub enum MysqlBuffer {
    Bytes(Vec<u8>),
    Time(MysqlTime),
}

/// What a [`MysqlBuffer`] holds.
#[verifier::ext_equal]
pub enum BufferView {
    Bytes(Seq<u8>),
    Time(MysqlTime),
}

impl View for MysqlBuffer {
    type V = BufferView;

    open spec fn view(&self) -> BufferView {
        match *self {
            MysqlBuffer::Bytes(b) => BufferView::Bytes(b@),
            MysqlBuffer::Time(t) => BufferView::Time(t),
        }
    }
}

/// The low `n` bytes of `v`, least significant first.
pub open spec fn le_bytes(v: int, n: nat) -> Seq<u8>
    decreases n,
{
    if n == 0 {
        Seq::empty()
    } else {
        seq![(v % 256) as u8] + le_bytes(v / 256, (n - 1) as nat)
    }
}

/// What a reader gets of a cell. NULL is nothing, bytes are themselves, a
/// number is its bytes with the least significant first, and a date or a span
/// is in the client library's layout.
pub open spec fn buffer_of(cell: MysqlCell) -> Option<BufferView> {
    match cell {
        MysqlCell::Null => None,
        MysqlCell::Bytes(b) => Some(BufferView::Bytes(b@)),
        MysqlCell::Int(x) => Some(BufferView::Bytes(le_bytes(x as int, 8))),
        MysqlCell::UInt(x) => Some(BufferView::Bytes(le_bytes(x as int, 8))),
        MysqlCell::Float(bits) => Some(BufferView::Bytes(le_bytes(bits as int, 4))),
        MysqlCell::Double(bits) => Some(BufferView::Bytes(le_bytes(bits as int, 8))),
        MysqlCell::Date(year, month, day, hour, minute, second, second_part) => Some(
            BufferView::Time(
                MysqlTime {
                    year: year as u32,
                    month: month as u32,
                    day: day as u32,
                    hour: hour as u32,
                    minute: minute as u32,
                    second: second as u32,
                    second_part: second_part as u64,
                    neg: false,
                    time_type: MysqlTimestampType::DateTime,
                    time_zone_displacement: 0,
                },
            ),
        ),
        MysqlCell::Time(neg, day, hour, minute, second, second_part) => Some(
            BufferView::Time(
                MysqlTime {
                    year: 0,
                    month: 0,
                    day,
                    hour: hour as u32,
                    minute: minute as u32,
                    second: second as u32,
                    second_part: second_part as u64,
                    neg,
                    time_type: MysqlTimestampType::Time,
                    time_zone_displacement: 0,
                },
            ),
        ),
    }
}

/// An integer of either sign's type.
#[derive(Clone, Copy, Debug, PartialEq, Eq, Structural)]
pub enum MysqlInteger {
    Signed(i64),
    Unsigned(u64),
}

impl MysqlInteger {
    /// The number.
    pub open spec fn number(self) -> int {
        match self {
            MysqlInteger::Signed(x) => x as int,
            MysqlInteger::Unsigned(x) => x as int,
        }
    }
}

/// `MySerialize::serialize` of an integer `mysql_common::value::Value`: the
/// eight bytes of the number in two's complement, least significant first.
#[verifier::external_body]
fn serialize_integer(integer: MysqlInteger) -> (bytes: Vec<u8>)
    ensures
        bytes@ == le_bytes(integer.number(), 8),
{
    let value = match integer {
        MysqlInteger::Signed(x) => mysql_common::value::Value::Int(x),
        MysqlInteger::Unsigned(x) => mysql_common::value::Value::UInt(x),
    };
    let mut buffer = Vec::new();
    value.serialize(&mut buffer);
    buffer
}

/// The low `n` bytes of `v`, least significant first.
fn low_bytes(v: u64, n: usize) -> (bytes: Vec<u8>)
    ensures
        bytes@ == le_bytes(v as int, n as nat),
{
    let mut bytes: Vec<u8> = Vec::new();
    let mut rest: u64 = v;
    let mut left: usize = n;
    assert(bytes@ + le_bytes(rest as int, left as nat) =~= le_bytes(v as int, n as nat));
    while left > 0
        invariant
            bytes@ + le_bytes(rest as int, left as nat) == le_bytes(v as int, n as nat),
        decreases left,
    {
        let ghost before = bytes@;
        let ghost was = rest as int;
        bytes.push((rest % 256) as u8);
        rest = rest / 256;
        left = left - 1;
        assert(bytes@ + le_bytes(rest as int, left as nat) =~= before + le_bytes(
            was,
            left as nat + 1,
        ));
    }
    assert(bytes@ =~= le_bytes(v as int, n as nat));
    bytes
}

/// What a reader gets of a cell.
pub fn to_buffer(cell: &MysqlCell) -> (buffer: Option<MysqlBuffer>)
    ensures
        match buffer {
            Some(b) => buffer_of(*cell) == Some(b@),
            None => buffer_of(*cell) is None,
        },
{
    match cell {
        MysqlCell::Null => None,
        MysqlCell::Bytes(b) => {
            let copy: Vec<u8> = b.clone();
            assert(copy@ =~= b@);
            Some(MysqlBuffer::Bytes(copy))
        },
        MysqlCell::Int(x) => Some(MysqlBuffer::Bytes(serialize_integer(MysqlInteger::Signed(*x)))),
        MysqlCell::UInt(x) => Some(
            MysqlBuffer::Bytes(serialize_integer(MysqlInteger::Unsigned(*x))),
        ),
        MysqlCell::Float(bits) => Some(MysqlBuffer::Bytes(low_bytes(*bits as u64, 4))),
        MysqlCell::Double(bits) => Some(MysqlBuffer::Bytes(low_bytes(*bits, 8))),
        MysqlCell::Date(year, month, day, hour, minute, second, second_part) => Some(
            MysqlBuffer::Time(
                MysqlTime {
                    year: *year as u32,
                    month: *month as u32,
                    day: *day as u32,
                    hour: *hour as u32,
                    minute: *minute as u32,
                    second: *second as u32,
                    second_part: *second_part as u64,
                    neg: false,
                    time_type: MysqlTimestampType::DateTime,
                    time_zone_displacement: 0,
                },
            ),
        ),
        MysqlCell::Time(neg, day, hour, minute, second, second_part) => Some(
            MysqlBuffer::Time(
                MysqlTime {
                    year: 0,
                    month: 0,
                    day: *day,
                    hour: *hour as u32,
                    minute: *minute as u32,
                    second: *second as u32,
                    second_part: *second_part as u64,
                    neg: *neg,
                    time_type: MysqlTimestampType::Time,
                    time_zone_displacement: 0,
                },
            ),
        ),
    }
}

/// A column of a result.
#[derive(Clone, Copy, Debug, PartialEq, Eq, Structural)]
pub struct MysqlColumn {
    pub column_type: ColumnType,
    pub flags: u16,
}

/// A row that the driver handed over: its columns, their names, and their
/// cells. A cell that was taken out before is gone.
#[derive(Debug)]
pub struct MysqlRow {
    pub names: Vec<String>,
    pub columns: Vec<MysqlColumn>,
    pub cells: Vec<Option<MysqlCell>>,
}

impl MysqlRow {
    /// There is a name and a cell to every column.
    pub open spec fn well_formed(&self) -> bool {
        self.names@.len() == self.columns@.len() && self.cells@.len() == self.columns@.len()
    }
}

impl RowIndex<usize> for MysqlRow {
    open spec fn position(&self, index: usize) -> Option<int> {
        if index < self.columns@.len() {
            Some(index as int)
        } else {
            None
        }
    }

    fn idx(&self, index: usize) -> (position: Option<usize>) {
        position_in(self.columns.len(), index)
    }
}

impl<'n> RowIndex<&'n str> for MysqlRow {
    open spec fn position(&self, index: &'n str) -> Option<int> {
        row::first_position(row::name_views(self.names@), index@)
    }

    fn idx(&self, index: &'n str) -> (position: Option<usize>) {
        position_of(self.names.as_slice(), index)
    }
}

/// One field of a [`MysqlRow`].
#[derive(Debug)]
pub struct MysqlField<'a> {
    pub value: Option<MysqlBuffer>,
    pub column: &'a MysqlColumn,
    pub name: &'a str,
}

impl MysqlRow {
    /// How many fields the row has.
    pub fn field_count(&self) -> (n: usize)
        ensures
            n == self.columns@.len(),
    {
        self.columns.len()
    }

    /// The field that an index finds, unless its cell is gone.
    pub fn get<I>(&self, index: I) -> (field: Option<MysqlField<'_>>) where Self: RowIndex<I>
        requires
            self.well_formed(),
        ensures
            ({
                let found = self.position(index);
                match field {
                    Some(f) => {
                        &&& found matches Some(i)
                        &&& 0 <= i < self.columns@.len()
                        &&& self.cells@[i] matches Some(cell)
                        &&& *f.column == self.columns@[i]
                        &&& f.name@ == self.names@[i]@
                        &&& match f.value {
                            Some(b) => buffer_of(cell) == Some(b@),
                            None => buffer_of(cell) is None,
                        }
                    },
                    None => match found {
                        Some(i) => i >= self.columns@.len() || self.cells@[i] is None,
                        None => true,
                    },
                }
            }),
    {
        let i: usize = match self.idx(index) {
            Some(i) => i,
            None => {
                return None;
            },
        };
        if i >= self.cells.len() {
            return None;
        }
        match &self.cells[i] {
            Some(cell) => Some(
                MysqlField {
                    value: to_buffer(cell),
                    column: &self.columns[i],
                    name: self.names[i].as_str(),
                },
            ),
            None => None,
        }
    }
}

impl<'a> MysqlField<'a> {
    /// The name of the column.
    pub fn field_name(&self) -> (name: Option<&str>)
        ensures
            name matches Some(text) && text@ == self.name@,
    {
        Some(self.name)
    }

    /// What a reader gets, and the type that it is told, unless the cell is
    /// NULL.
    pub fn value(&self) -> (v: Option<(&MysqlBuffer, MysqlType)>)
        requires
            self.value is Some ==> type_of_column(self.column.column_type, self.column.flags) is Some,
        ensures
            match v {
                Some((buffer, ty)) => self.value == Some(*buffer) && Some(ty) == type_of_column(
                    self.column.column_type,
                    self.column.flags,
                ),
                None => self.value is None,
            },
    {
        match &self.value {
            Some(buffer) => Some(
                (buffer, convert_type(self.column.column_type, self.column.flags)),
            ),
            None => None,
        }
    }
}

// ---------------------------------------------------------------------------
// What a reader can rely on
// ---------------------------------------------------------------------------

/// The flags are single bits: the sixth, the eighth, the ninth and the
/// twelfth.
pub proof fn flags_are_bits(flags: u16)
    ensures
        flagged(flags, UNSIGNED_FLAG) <==> (flags / 32) % 2 == 1,
        flagged(flags, BINARY_FLAG) <==> (flags / 128) % 2 == 1,
        flagged(flags, ENUM_FLAG) <==> (flags / 256) % 2 == 1,
        flagged(flags, SET_FLAG) <==> (flags / 2048) % 2 == 1,
{
    assert((flags & 32 == 32) <==> (flags / 32) % 2 == 1) by (bit_vector);
    assert((flags & 128 == 128) <==> (flags / 128) % 2 == 1) by (bit_vector);
    assert((flags & 256 == 256) <==> (flags / 256) % 2 == 1) by (bit_vector);
    assert((flags & 2048 == 2048) <==> (flags / 2048) % 2 == 1) by (bit_vector);
}

/// How many bytes an integer of a type has, and whether it has no sign.
pub open spec fn integer_shape(ty: MysqlType) -> Option<(int, bool)> {
    match ty {
        MysqlType::Tiny => Some((1, false)),
        MysqlType::UnsignedTiny => Some((1, true)),
        MysqlType::Short => Some((2, false)),
        MysqlType::UnsignedShort => Some((2, true)),
        MysqlType::Long => Some((4, false)),
        MysqlType::UnsignedLong => Some((4, true)),
        MysqlType::LongLong => Some((8, false)),
        MysqlType::UnsignedLongLong => Some((8, true)),
        _ => None,
    }
}

/// How many bytes the integers of a column take. A year takes two, and an
/// integer of three bytes is widened to four.
pub open spec fn column_width(column_type: ColumnType) -> Option<int> {
    match column_type {
        ColumnType::Tiny => Some(1),
        ColumnType::Short | ColumnType::Year => Some(2),
        ColumnType::Int24 | ColumnType::Long => Some(4),
        ColumnType::LongLong => Some(8),
        _ => None,
    }
}

/// The integers of a column keep their width and are unsigned exactly where
/// the flag says so; and no other column is told to be of integers.
pub proof fn integer_columns_keep_width_and_sign(column_type: ColumnType, flags: u16)
    ensures
        column_width(column_type) matches Some(width) ==> type_of_column(
            column_type,
            flags,
        ) matches Some(ty) && integer_shape(ty) == Some((width, (flags / 32) % 2 == 1)),
        column_width(column_type) is None ==> (type_of_column(column_type, flags) matches Some(ty)
            ==> integer_shape(ty) is None),
{
    flags_are_bits(flags);
}

/// Of a column of text or bytes the flags tell which it is: an enum before
/// anything else, then a set, then bytes, then text.
pub proof fn textual_columns_go_by_their_flags(column_type: ColumnType, flags: u16)
    requires
        column_type is VarString || column_type is String || column_type is TinyBlob
            || column_type is MediumBlob || column_type is LongBlob || column_type is Blob,
    ensures
        type_of_column(column_type, flags) == Some(MysqlType::EnumType) <==> (flags / 256) % 2 == 1,
        type_of_column(column_type, flags) == Some(MysqlType::SetType) <==> (flags / 256) % 2 == 0
            && (flags / 2048) % 2 == 1,
        type_of_column(column_type, flags) == Some(MysqlType::Blob) <==> (flags / 256) % 2 == 0 && (
        flags / 2048) % 2 == 0 && (flags / 128) % 2 == 1,
        type_of_column(column_type, flags) == Some(MysqlType::String) <==> (flags / 256) % 2 == 0
            && (flags / 2048) % 2 == 0 && (flags / 128) % 2 == 0,
{
    flags_are_bits(flags);
}

/// The other columns that come in a result are of one type whatever their
/// flags, and the rest never come.
pub proof fn other_columns_have_one_type(flags: u16)
    ensures
        type_of_column(ColumnType::Decimal, flags) == Some(MysqlType::Numeric),
        type_of_column(ColumnType::NewDecimal, flags) == Some(MysqlType::Numeric),
        type_of_column(ColumnType::Float, flags) == Some(MysqlType::Float),
        type_of_column(ColumnType::Double, flags) == Some(MysqlType::Double),
        type_of_column(ColumnType::Timestamp, flags) == Some(MysqlType::Timestamp),
        type_of_column(ColumnType::Date, flags) == Some(MysqlType::Date),
        type_of_column(ColumnType::Time, flags) == Some(MysqlType::Time),
        type_of_column(ColumnType::DateTime, flags) == Some(MysqlType::DateTime),
        type_of_column(ColumnType::Bit, flags) == Some(MysqlType::Bit),
        type_of_column(ColumnType::Json, flags) == Some(MysqlType::String),
        type_of_column(ColumnType::Null, flags) is None,
        type_of_column(ColumnType::NewDate, flags) is None,
        type_of_column(ColumnType::VarChar, flags) is None,
        type_of_column(ColumnType::Timestamp2, flags) is None,
        type_of_column(ColumnType::DateTime2, flags) is None,
        type_of_column(ColumnType::Time2, flags) is None,
        type_of_column(ColumnType::TypedArray, flags) is None,
        type_of_column(ColumnType::Vector, flags) is None,
        type_of_column(ColumnType::Unknown, flags) is None,
        type_of_column(ColumnType::EnumType, flags) is None,
        type_of_column(ColumnType::SetType, flags) is None,
        type_of_column(ColumnType::Geometry, flags) is None,
{
}

/// The number that bytes spell, least significant first.
pub open spec fn le_value(bytes: Seq<u8>) -> int
    decreases bytes.len(),
{
    if bytes.len() == 0 {
        0
    } else {
        bytes[0] + 256 * le_value(bytes.skip(1))
    }
}

proof fn lemma_le_value(v: int, n: nat)
    ensures
        le_bytes(v, n).len() == n,
        n == 4 ==> le_value(le_bytes(v, n)) == v % 0x1_0000_0000,
        n == 8 ==> le_value(le_bytes(v, n)) == v % 0x1_0000_0000_0000_0000,
{
    reveal_with_fuel(le_bytes, 9);
    reveal_with_fuel(le_value, 9);
    lemma_le_length(v, n);
    let b0 = le_bytes(v, n);
    if n == 4 || n == 8 {
        lemma_le_step(v, n);
        let v1 = v / 256;
        lemma_le_step(v1, (n - 1) as nat);
        let v2 = v1 / 256;
        lemma_le_step(v2, (n - 2) as nat);
        let v3 = v2 / 256;
        lemma_le_step(v3, (n - 3) as nat);
        let v4 = v3 / 256;
        if n == 8 {
            lemma_le_step(v4, 4);
            let v5 = v4 / 256;
            lemma_le_step(v5, 3);
            let v6 = v5 / 256;
            lemma_le_step(v6, 2);
            let v7 = v6 / 256;
            lemma_le_step(v7, 1);
        }
    }
}

proof fn lemma_le_length(v: int, n: nat)
    ensures
        le_bytes(v, n).len() == n,
    decreases n,
{
    if n > 0 {
        lemma_le_length(v / 256, (n - 1) as nat);
    }
}

proof fn lemma_le_step(v: int, n: nat)
    requires
        n > 0,
    ensures
        le_value(le_bytes(v, n)) == v % 256 + 256 * le_value(le_bytes(v / 256, (n - 1) as nat)),
{
    assert(le_bytes(v, n).skip(1) =~= le_bytes(v / 256, (n - 1) as nat));
}

/// What a reader gets of a number spells the number, least significant byte
/// first: eight bytes, in two's complement, of an integer, four of a float
/// and eight of a double. NULL is nothing, and bytes are themselves.
pub proof fn numbers_are_spelled_by_their_bytes(cell: MysqlCell)
    ensures
        buffer_of(cell) is None <==> cell is Null,
        cell matches MysqlCell::Bytes(b) ==> buffer_of(cell) == Some(BufferView::Bytes(b@)),
        cell matches MysqlCell::Int(x) ==> (buffer_of(cell) matches Some(BufferView::Bytes(b))
            && b.len() == 8 && le_value(b) == (if x < 0 {
            x + 0x1_0000_0000_0000_0000
        } else {
            x as int
        })),
        cell matches MysqlCell::UInt(x) ==> (buffer_of(cell) matches Some(BufferView::Bytes(b))
            && b.len() == 8 && le_value(b) == x),
        cell matches MysqlCell::Float(x) ==> (buffer_of(cell) matches Some(BufferView::Bytes(b))
            && b.len() == 4 && le_value(b) == x),
        cell matches MysqlCell::Double(x) ==> (buffer_of(cell) matches Some(BufferView::Bytes(b))
            && b.len() == 8 && le_value(b) == x),
{
    match cell {
        MysqlCell::Int(x) => lemma_le_value(x as int, 8),
        MysqlCell::UInt(x) => lemma_le_value(x as int, 8),
        MysqlCell::Float(x) => lemma_le_value(x as int, 4),
        MysqlCell::Double(x) => lemma_le_value(x as int, 8),
        _ => {},
    }
}

/// A date and a span keep every part. A date has no sign, a span neither year
/// nor month, and neither a displacement.
pub proof fn dates_and_spans_keep_their_parts(cell: MysqlCell)
    ensures
        cell matches MysqlCell::Date(year, month, day, hour, minute, second, micros) ==> (buffer_of(
            cell,
        ) matches Some(BufferView::Time(t)) && t.year == year && t.month == month && t.day == day
            && t.hour == hour && t.minute == minute && t.second == second && t.second_part == micros
            && !t.neg && t.time_type == MysqlTimestampType::DateTime && t.time_zone_displacement
            == 0),
        cell matches MysqlCell::Time(neg, day, hour, minute, second, micros) ==> (buffer_of(
            cell,
        ) matches Some(BufferView::Time(t)) && t.year == 0 && t.month == 0 && t.day == day && t.hour
            == hour && t.minute == minute && t.second == second && t.second_part == micros && t.neg
            == neg && t.time_type == MysqlTimestampType::Time && t.time_zone_displacement == 0),
{
}

/// A position finds the cell that stands there, and none behind the last one.
/// A name finds the first column of that name.
pub proof fn cells_are_found_by_position_and_by_name(row: MysqlRow, index: usize, name: &str)
    ensures
        RowIndex::<usize>::position(&row, index) is Some <==> index < row.columns@.len(),
        RowIndex::<usize>::position(&row, index) matches Some(i) ==> i == index,
        RowIndex::<&str>::position(&row, name) matches Some(i) ==> 0 <= i < row.names@.len()
            && row.names@[i]@ == name@ && forall|k: int|
            0 <= k < i ==> (#[trigger] row.names@[k])@ != name@,
        RowIndex::<&str>::position(&row, name) is None ==> forall|k: int|
            0 <= k < row.names@.len() ==> (#[trigger] row.names@[k])@ != name@,
{
    let names = row::name_views(row.names@);
    row::first_position_is_first(names, name@);
    assert forall|k: int| 0 <= k < row.names@.len() implies (#[trigger] row.names@[k])@
        == names[k] by {}
}

} // verus!
