//! Binds on their way to the MySQL driver.

use vstd::prelude::*;

use crate::error::{QueryError, WriteError};
use crate::mysql::row;
use crate::mysql::row::{MysqlCell, MysqlTime, MysqlType};
use crate::union::wire;
use crate::union::wire::{read_int_be, read_uint_be};
use crate::union::wire_laws;

verus! {

/// One bind as it was written: bytes, a number's in the machine's order, or a
/// time in the client library's layout.
#[derive(Debug, PartialEq, Eq)]
pub enum MysqlBind {
    Bytes(Vec<u8>),
    Time(MysqlTime),
}

/// In which order the machine lays out the bytes of a number.
#[derive(Clone, Copy, Debug, PartialEq, Eq, Structural)]
pub enum ByteOrder {
    LittleEndian,
    BigEndian,
}

/// The binds of a statement and, to each, the type under which it was
/// written.
#[derive(Debug)]
pub struct ToSqlHelper {
    pub metadata: Vec<MysqlType>,
    pub binds: Vec<Option<MysqlBind>>,
}

/// How many bytes a number of a type has, where it has a fixed number.
pub open spec fn width_of(metadata: MysqlType) -> Option<nat> {
    match metadata {
        MysqlType::Short | MysqlType::UnsignedShort => Some(2),
        MysqlType::Long | MysqlType::UnsignedLong | MysqlType::Float => Some(4),
        MysqlType::LongLong | MysqlType::UnsignedLongLong | MysqlType::Double => Some(8),
        _ => None,
    }
}

/// Whether a type is a date, a time or both.
pub open spec fn temporal(metadata: MysqlType) -> bool {
    metadata is Time || metadata is Date || metadata is DateTime || metadata is Timestamp
}

/// Whether the parts of a time that its type is made of fit, but for the
/// microseconds.
pub open spec fn parts_fit(metadata: MysqlType, time: MysqlTime) -> bool {
    &&& time.hour <= u8::MAX && time.minute <= u8::MAX && time.second <= u8::MAX
    &&& metadata is Time || (time.year <= u16::MAX && time.month <= u8::MAX && time.day <= u8::MAX)
}

/// Whether a bind has the form in which its type is written: a number has its
/// width, a time is a time whose microseconds have 32 bits unless another part
/// of it does not fit, anything else is bytes. A bit string has no form.
pub open spec fn written_as(metadata: MysqlType, bind: Option<MysqlBind>) -> bool {
    match bind {
        None => true,
        Some(MysqlBind::Time(time)) => temporal(metadata) && (parts_fit(metadata, time)
            ==> time.second_part <= u32::MAX),
        Some(MysqlBind::Bytes(bytes)) => {
            &&& !temporal(metadata)
            &&& metadata !is Bit
            &&& metadata is Tiny || metadata is UnsignedTiny ==> bytes@.len() >= 1
            &&& width_of(metadata) matches Some(n) ==> bytes@.len() == n
        },
    }
}

/// Whether a bind has the form in which its type is written.
pub fn is_written_as(metadata: MysqlType, bind: &Option<MysqlBind>) -> (yes: bool)
    ensures
        yes == written_as(metadata, *bind),
{
    let is_temporal: bool = match metadata {
        MysqlType::Time | MysqlType::Date | MysqlType::DateTime | MysqlType::Timestamp => true,
        _ => false,
    };
    match bind {
        None => true,
        Some(MysqlBind::Time(time)) => {
            let is_time: bool = match metadata {
                MysqlType::Time => true,
                _ => false,
            };
            let fits: bool = time.hour <= 255 && time.minute <= 255 && time.second <= 255 && (is_time
                || (time.year <= 65535 && time.month <= 255 && time.day <= 255));
            is_temporal && (!fits || time.second_part <= 0xffff_ffff)
        },
        Some(MysqlBind::Bytes(bytes)) => match metadata {
            MysqlType::Bit => false,
            MysqlType::Tiny | MysqlType::UnsignedTiny => bytes.len() >= 1,
            MysqlType::Short | MysqlType::UnsignedShort => bytes.len() == 2,
            MysqlType::Long | MysqlType::UnsignedLong | MysqlType::Float => bytes.len() == 4,
            MysqlType::LongLong | MysqlType::UnsignedLongLong | MysqlType::Double => bytes.len()
                == 8,
            _ => !is_temporal,
        },
    }
}

/// The bytes of a number, most significant first.
pub open spec fn significant_first(bytes: Seq<u8>, order: ByteOrder) -> Seq<u8> {
    match order {
        ByteOrder::BigEndian => bytes,
        ByteOrder::LittleEndian => bytes.reverse(),
    }
}

/// What a time of a type becomes, where its parts fit.
pub open spec fn time_cell(metadata: MysqlType, time: MysqlTime) -> Option<MysqlCell> {
    let clock_fits = time.hour <= u8::MAX && time.minute <= u8::MAX && time.second <= u8::MAX;
    if metadata is Time {
        if clock_fits {
            Some(
                MysqlCell::Time(
                    time.neg,
                    time.day,
                    time.hour as u8,
                    time.minute as u8,
                    time.second as u8,
                    time.second_part as u32,
                ),
            )
        } else {
            None
        }
    } else if clock_fits && time.year <= u16::MAX && time.month <= u8::MAX && time.day <= u8::MAX {
        Some(
            MysqlCell::Date(
                time.year as u16,
                time.month as u8,
                time.day as u8,
                time.hour as u8,
                time.minute as u8,
                time.second as u8,
                time.second_part as u32,
            ),
        )
    } else {
        None
    }
}

/// What the driver is handed for a bind: NULL for none, a number for the
/// bytes of one, and bytes as they are. `None` where a part of a time does
/// not fit in the driver's.
pub open spec fn cell_of(
    metadata: MysqlType,
    bind: Option<MysqlBind>,
    order: ByteOrder,
) -> Option<MysqlCell> {
    match bind {
        None => Some(MysqlCell::Null),
        Some(MysqlBind::Time(time)) => time_cell(metadata, time),
        Some(MysqlBind::Bytes(bytes)) => {
            let digits = significant_first(bytes@, order);
            match metadata {
                MysqlType::Tiny => Some(
                    MysqlCell::Int(wire::signed_be(bytes@.take(1)) as i64),
                ),
                MysqlType::UnsignedTiny => Some(MysqlCell::UInt(bytes@[0] as u64)),
                MysqlType::Short | MysqlType::Long | MysqlType::LongLong => Some(
                    MysqlCell::Int(wire::signed_be(digits) as i64),
                ),
                MysqlType::UnsignedShort
                | MysqlType::UnsignedLong
                | MysqlType::UnsignedLongLong => Some(
                    MysqlCell::UInt(wire::unsigned_be(digits) as u64),
                ),
                MysqlType::Float => Some(MysqlCell::Float(wire::unsigned_be(digits) as u32)),
                MysqlType::Double => Some(MysqlCell::Double(wire::unsigned_be(digits) as u64)),
                _ => Some(MysqlCell::Bytes(bytes)),
            }
        },
    }
}

/// Copies bytes, turning them round where the machine's order asks for it.
fn to_significant_first(bytes: &Vec<u8>, order: ByteOrder) -> (digits: Vec<u8>)
    ensures
        digits@ == significant_first(bytes@, order),
{
    let mut digits: Vec<u8> = Vec::new();
    let n: usize = bytes.len();
    let mut i: usize = 0;
    while i < n
        invariant
            i <= n,
            n == bytes@.len(),
            digits@ == significant_first(bytes@, order).take(i as int),
        decreases n - i,
    {
        match order {
            ByteOrder::BigEndian => digits.push(bytes[i]),
            ByteOrder::LittleEndian => digits.push(bytes[n - 1 - i]),
        }
        i = i + 1;
        assert(digits@ =~= significant_first(bytes@, order).take(i as int));
    }
    assert(digits@ =~= significant_first(bytes@, order));
    digits
}

fn signed_number(digits: &Vec<u8>) -> (v: i64)
    requires
        1 <= digits@.len() <= 8,
    ensures
        v == wire::signed_be(digits@) as i64,
{
    proof {
        wire::lemma_signed_be_range(digits@);
        assert(digits@.take(digits@.len() as int) =~= digits@);
    }
    match read_int_be(digits.as_slice(), digits.len()) {
        Ok((v, _)) => v,
        Err(_) => 0,
    }
}

fn unsigned_number(digits: &Vec<u8>) -> (v: u64)
    requires
        digits@.len() <= 8,
    ensures
        v == wire::unsigned_be(digits@),
{
    assert(digits@.take(digits@.len() as int) =~= digits@);
    read_uint_be(digits.as_slice(), digits.len())
}

/// Whether an error is that of a part of a time that does not fit.
pub open spec fn is_cast_error(e: QueryError) -> bool {
    e == QueryError::SerializationError(WriteError::OutOfRange)
}

fn cast_error() -> (e: QueryError)
    ensures
        is_cast_error(e),
{
    QueryError::SerializationError(WriteError::OutOfRange)
}

/// What the driver is handed for a bind.
pub fn to_value(metadata: MysqlType, bind: Option<MysqlBind>, order: ByteOrder) -> (r: Result<
    MysqlCell,
    QueryError,
>)
    requires
        written_as(metadata, bind),
    ensures
        match r {
            Ok(cell) => cell_of(metadata, bind, order) == Some(cell),
            Err(e) => cell_of(metadata, bind, order) is None && is_cast_error(e),
        },
{
    match bind {
        None => Ok(MysqlCell::Null),
        Some(MysqlBind::Time(time)) => time_value(metadata, time),
        Some(MysqlBind::Bytes(bytes)) => {
            let digits: Vec<u8> = to_significant_first(&bytes, order);
            proof {
                if width_of(metadata) is Some {
                    wire::lemma_pow256();
                    wire::lemma_unsigned_be_range(digits@);
                }
            }
            match metadata {
                MysqlType::Tiny => {
                    proof {
                        wire::lemma_signed_be_range(bytes@.take(1));
                    }
                    match read_int_be(bytes.as_slice(), 1) {
                        Ok((v, _)) => Ok(MysqlCell::Int(v)),
                        Err(_) => Err(cast_error()),
                    }
                },
                MysqlType::UnsignedTiny => Ok(MysqlCell::UInt(bytes[0] as u64)),
                MysqlType::Short | MysqlType::Long | MysqlType::LongLong => Ok(
                    MysqlCell::Int(signed_number(&digits)),
                ),
                MysqlType::UnsignedShort
                | MysqlType::UnsignedLong
                | MysqlType::UnsignedLongLong => Ok(MysqlCell::UInt(unsigned_number(&digits))),
                MysqlType::Float => Ok(MysqlCell::Float(unsigned_number(&digits) as u32)),
                MysqlType::Double => Ok(MysqlCell::Double(unsigned_number(&digits))),
                _ => Ok(MysqlCell::Bytes(bytes)),
            }
        },
    }
}

/// What the driver is handed for a time.
fn time_value(metadata: MysqlType, time: MysqlTime) -> (r: Result<MysqlCell, QueryError>)
    requires
        temporal(metadata),
        parts_fit(metadata, time) ==> time.second_part <= u32::MAX,
    ensures
        match r {
            Ok(cell) => time_cell(metadata, time) == Some(cell),
            Err(e) => time_cell(metadata, time) is None && is_cast_error(e),
        },
{
    if time.hour > 255 || time.minute > 255 || time.second > 255 {
        return Err(cast_error());
    }
    let hour: u8 = time.hour as u8;
    let minute: u8 = time.minute as u8;
    let second: u8 = time.second as u8;
    let micros: u32 = time.second_part as u32;
    if let MysqlType::Time = metadata {
        return Ok(MysqlCell::Time(time.neg, time.day, hour, minute, second, micros));
    }
    if time.year > 65535 || time.month > 255 || time.day > 255 {
        return Err(cast_error());
    }
    Ok(
        MysqlCell::Date(
            time.year as u16,
            time.month as u8,
            time.day as u8,
            hour,
            minute,
            second,
            micros,
        ),
    )
}

/// How many binds have a type.
pub open spec fn pairs(helper: ToSqlHelper) -> int {
    if helper.metadata@.len() < helper.binds@.len() {
        helper.metadata@.len() as int
    } else {
        helper.binds@.len() as int
    }
}

/// The positional parameters of a statement: what the driver is handed for
/// each bind that has a type, in order. Where one cannot be handed over, the
/// error is that of the first such bind.
pub fn to_params(helper: ToSqlHelper, order: ByteOrder) -> (r: Result<Vec<MysqlCell>, QueryError>)
    requires
        forall|i: int|
            0 <= i < pairs(helper) ==> written_as(
                #[trigger] helper.metadata@[i],
                helper.binds@[i],
            ),
    ensures
        match r {
            Ok(cells) => cells@.len() == pairs(helper) && forall|i: int|
                0 <= i < cells@.len() ==> cell_of(helper.metadata@[i], helper.binds@[i], order)
                    == Some(#[trigger] cells@[i]),
            Err(e) => is_cast_error(e) && exists|i: int|
                0 <= i < pairs(helper) && cell_of(
                    #[trigger] helper.metadata@[i],
                    helper.binds@[i],
                    order,
                ) is None,
        },
{
    let ghost all = helper;
    let metadata: Vec<MysqlType> = helper.metadata;
    let mut cells: Vec<MysqlCell> = Vec::new();
    for bind in it: helper.binds
        invariant
            all == helper,
            it.seq() == all.binds@,
            metadata@ == all.metadata@,
            cells@.len() == (if it.index() < metadata@.len() {
                it.index() as int
            } else {
                metadata@.len() as int
            }),
            forall|i: int|
                0 <= i < pairs(all) ==> written_as(#[trigger] all.metadata@[i], all.binds@[i]),
            forall|i: int|
                0 <= i < cells@.len() ==> cell_of(all.metadata@[i], all.binds@[i], order) == Some(
                    #[trigger] cells@[i],
                ),
    {
        let i: usize = cells.len();
        if i < metadata.len() {
            assert(written_as(all.metadata@[i as int], all.binds@[i as int]));
            match to_value(metadata[i], bind, order) {
                Ok(cell) => cells.push(cell),
                Err(e) => {
                    assert(cell_of(all.metadata@[i as int], all.binds@[i as int], order) is None);
                    return Err(e);
                },
            }
        }
    }
    Ok(cells)
}

proof fn lemma_le_reversed(v: int, n: nat)
    ensures
        row::le_bytes(v, n).reverse() == wire::be_bytes(v, n),
        row::le_bytes(v, n).len() == n,
    decreases n,
{
    if n > 0 {
        lemma_le_reversed(v / 256, (n - 1) as nat);
        let rest = row::le_bytes(v / 256, (n - 1) as nat);
        assert(row::le_bytes(v, n).reverse() =~= rest.reverse().push((v % 256) as u8));
    } else {
        assert(row::le_bytes(v, n).reverse() =~= wire::be_bytes(v, n));
    }
}

/// An integer that a reader got of a cell is the same integer when it is
/// bound again, on a machine that puts the least significant byte first.
pub proof fn integers_read_back(cell: MysqlCell, bytes: Vec<u8>)
    requires
        cell is Int || cell is UInt,
        row::buffer_of(cell) == Some(row::BufferView::Bytes(bytes@)),
    ensures
        cell_of(
            if cell is Int {
                MysqlType::LongLong
            } else {
                MysqlType::UnsignedLongLong
            },
            Some(MysqlBind::Bytes(bytes)),
            ByteOrder::LittleEndian,
        ) == Some(cell),
{
    wire::lemma_pow256();
    match cell {
        MysqlCell::Int(x) => {
            lemma_le_reversed(x as int, 8);
            wire::signed_bytes_read_back(x as int, 8);
        },
        MysqlCell::UInt(x) => {
            lemma_le_reversed(x as int, 8);
            wire::lemma_unsigned_be_bytes(x as int, 8);
        },
        _ => {},
    }
}

/// A date or a span that a reader got of a cell is the same when it is bound
/// again.
pub proof fn times_read_back(cell: MysqlCell, time: MysqlTime)
    requires
        cell is Date || cell is Time,
        row::buffer_of(cell) == Some(row::BufferView::Time(time)),
    ensures
        time.second_part <= u32::MAX,
        cell is Date ==> time_cell(MysqlType::DateTime, time) == Some(cell),
        cell is Time ==> time_cell(MysqlType::Time, time) == Some(cell),
{
}

/// The number that two bytes of a machine spell.
pub open spec fn two_bytes(b: Seq<u8>, order: ByteOrder) -> int {
    match order {
        ByteOrder::LittleEndian => b[0] + b[1] * 0x100,
        ByteOrder::BigEndian => b[1] + b[0] * 0x100,
    }
}

/// The number that four bytes of a machine spell.
pub open spec fn four_bytes(b: Seq<u8>, order: ByteOrder) -> int {
    match order {
        ByteOrder::LittleEndian => two_bytes(b.subrange(0, 2), order) + two_bytes(
            b.subrange(2, 4),
            order,
        ) * 0x1_0000,
        ByteOrder::BigEndian => two_bytes(b.subrange(2, 4), order) + two_bytes(
            b.subrange(0, 2),
            order,
        ) * 0x1_0000,
    }
}

/// The number that eight bytes of a machine spell.
pub open spec fn eight_bytes(b: Seq<u8>, order: ByteOrder) -> int {
    match order {
        ByteOrder::LittleEndian => four_bytes(b.subrange(0, 4), order) + four_bytes(
            b.subrange(4, 8),
            order,
        ) * 0x1_0000_0000,
        ByteOrder::BigEndian => four_bytes(b.subrange(4, 8), order) + four_bytes(
            b.subrange(0, 4),
            order,
        ) * 0x1_0000_0000,
    }
}

/// A number below `modulus` taken as one in two's complement.
pub open spec fn with_sign(n: int, modulus: int) -> int {
    if 2 * n < modulus {
        n
    } else {
        n - modulus
    }
}

proof fn lemma_digits(b: Seq<u8>, order: ByteOrder)
    requires
        b.len() == 2 || b.len() == 4 || b.len() == 8,
    ensures
        ({
            let digits = significant_first(b, order);
            &&& b.len() == 2 ==> wire::unsigned_be(digits) == two_bytes(b, order)
                && wire::signed_be(digits) == with_sign(two_bytes(b, order), 0x1_0000)
            &&& b.len() == 4 ==> wire::unsigned_be(digits) == four_bytes(b, order)
                && wire::signed_be(digits) == with_sign(four_bytes(b, order), 0x1_0000_0000)
            &&& b.len() == 8 ==> wire::unsigned_be(digits) == eight_bytes(b, order)
                && wire::signed_be(digits) == with_sign(
                eight_bytes(b, order),
                0x1_0000_0000_0000_0000,
            )
        }),
{
    wire::lemma_pow256();
    let digits = significant_first(b, order);
    assert(digits.len() == b.len());
    wire_laws::lemma_value_of(digits);
}

/// The driver is handed the number that the bytes of a bind spell in the
/// machine's order: signed types in two's complement, the others without a
/// sign, and floats by their bit pattern. A single byte has no order.
pub proof fn binds_are_handed_over_as_their_numbers(bytes: Vec<u8>, order: ByteOrder)
    ensures
        bytes@.len() == 1 ==> {
            &&& cell_of(MysqlType::Tiny, Some(MysqlBind::Bytes(bytes)), order) == Some(
                MysqlCell::Int(with_sign(bytes@[0] as int, 0x100) as i64),
            )
            &&& cell_of(MysqlType::UnsignedTiny, Some(MysqlBind::Bytes(bytes)), order) == Some(
                MysqlCell::UInt(bytes@[0] as u64),
            )
        },
        bytes@.len() == 2 ==> {
            &&& cell_of(MysqlType::Short, Some(MysqlBind::Bytes(bytes)), order) == Some(
                MysqlCell::Int(with_sign(two_bytes(bytes@, order), 0x1_0000) as i64),
            )
            &&& cell_of(MysqlType::UnsignedShort, Some(MysqlBind::Bytes(bytes)), order) == Some(
                MysqlCell::UInt(two_bytes(bytes@, order) as u64),
            )
        },
        bytes@.len() == 4 ==> {
            &&& cell_of(MysqlType::Long, Some(MysqlBind::Bytes(bytes)), order) == Some(
                MysqlCell::Int(with_sign(four_bytes(bytes@, order), 0x1_0000_0000) as i64),
            )
            &&& cell_of(MysqlType::UnsignedLong, Some(MysqlBind::Bytes(bytes)), order) == Some(
                MysqlCell::UInt(four_bytes(bytes@, order) as u64),
            )
            &&& cell_of(MysqlType::Float, Some(MysqlBind::Bytes(bytes)), order) == Some(
                MysqlCell::Float(four_bytes(bytes@, order) as u32),
            )
        },
        bytes@.len() == 8 ==> {
            &&& cell_of(MysqlType::LongLong, Some(MysqlBind::Bytes(bytes)), order) == Some(
                MysqlCell::Int(
                    with_sign(eight_bytes(bytes@, order), 0x1_0000_0000_0000_0000) as i64,
                ),
            )
            &&& cell_of(MysqlType::UnsignedLongLong, Some(MysqlBind::Bytes(bytes)), order) == Some(
                MysqlCell::UInt(eight_bytes(bytes@, order) as u64),
            )
            &&& cell_of(MysqlType::Double, Some(MysqlBind::Bytes(bytes)), order) == Some(
                MysqlCell::Double(eight_bytes(bytes@, order) as u64),
            )
        },
{
    if bytes@.len() == 1 {
        wire::lemma_pow256();
        assert(bytes@.take(1) =~= bytes@);
        wire_laws::lemma_value_of(bytes@);
    } else if bytes@.len() == 2 || bytes@.len() == 4 || bytes@.len() == 8 {
        lemma_digits(bytes@, order);
    }
}

/// A bind of none is NULL under every type, and the bytes of a type that is
/// no number and no time are handed over as they are.
pub proof fn the_rest_is_handed_over_as_it_is(metadata: MysqlType, bytes: Vec<u8>, order: ByteOrder)
    ensures
        cell_of(metadata, None, order) == Some(MysqlCell::Null),
        metadata is Numeric || metadata is String || metadata is Blob || metadata is Bit
            || metadata is SetType || metadata is EnumType ==> cell_of(
            metadata,
            Some(MysqlBind::Bytes(bytes)),
            order,
        ) == Some(MysqlCell::Bytes(bytes)),
{
}

/// A time keeps every part that its type is made of, and is refused exactly
/// where one of them does not fit: a span has a sign and any number of days,
/// the others a date.
pub proof fn times_keep_their_parts(metadata: MysqlType, time: MysqlTime)
    requires
        time.second_part <= u32::MAX,
    ensures
        time_cell(metadata, time) is Some <==> time.hour < 0x100 && time.minute < 0x100
            && time.second < 0x100 && (metadata == MysqlType::Time || (time.year < 0x1_0000
            && time.month < 0x100 && time.day < 0x100)),
        time_cell(metadata, time) matches Some(cell) ==> (if metadata == MysqlType::Time {
            cell matches MysqlCell::Time(neg, day, hour, minute, second, micros) && neg == time.neg
                && day == time.day && hour == time.hour && minute == time.minute && second
                == time.second && micros == time.second_part
        } else {
            cell matches MysqlCell::Date(year, month, day, hour, minute, second, micros) && year
                == time.year && month == time.month && day == time.day && hour == time.hour
                && minute == time.minute && second == time.second && micros == time.second_part
        }),
{
}

/// Numbers have their usual widths, and the four types of times are times.
pub proof fn types_have_their_forms(metadata: MysqlType, bytes: Vec<u8>, time: MysqlTime)
    ensures
        written_as(metadata, None),
        written_as(metadata, Some(MysqlBind::Bytes(bytes))) <==> match metadata {
            MysqlType::Tiny | MysqlType::UnsignedTiny => bytes@.len() >= 1,
            MysqlType::Short | MysqlType::UnsignedShort => bytes@.len() == 2,
            MysqlType::Long | MysqlType::UnsignedLong | MysqlType::Float => bytes@.len() == 4,
            MysqlType::LongLong
            | MysqlType::UnsignedLongLong
            | MysqlType::Double => bytes@.len() == 8,
            MysqlType::Time
            | MysqlType::Date
            | MysqlType::DateTime
            | MysqlType::Timestamp
            | MysqlType::Bit => false,
            _ => true,
        },
        written_as(metadata, Some(MysqlBind::Time(time))) ==> metadata == MysqlType::Time
            || metadata == MysqlType::Date || metadata == MysqlType::DateTime || metadata
            == MysqlType::Timestamp,
        (metadata == MysqlType::Time || metadata == MysqlType::Date || metadata
            == MysqlType::DateTime || metadata == MysqlType::Timestamp) && time.second_part
            <= 0xffff_ffff ==> written_as(metadata, Some(MysqlBind::Time(time))),
{
}

} // verus!
