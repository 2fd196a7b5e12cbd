//! The SQLite record format, and the tag byte and single-column outer record
//! that frame a UNION value.
//!
//! ```text
//! [tag_index: u8][outer_record: one-column SQLite record]
//! ```
//!
//! The one column of the outer record is the scalar itself for a scalar
//! variant; for a struct variant it is a blob whose bytes are again a record,
//! one column per field.
//!
//! Serial types: 0 is NULL, 1 to 6 are signed integers of 1, 2, 3, 4, 6 and 8
//! bytes, 7 is a float, 8 and 9 are the literals 0 and 1, `12 + 2n` is a blob
//! of `n` bytes and `13 + 2n` a text of `n` bytes.

use vstd::prelude::*;
use vstd::slice::slice_subrange;
use vstd::utf8::{decode_utf8, encode_utf8, valid_utf8};

use crate::value;
use crate::value::{real_is_nan, Value, ValueView};

verus! {

/// Why a blob was not a well-formed record.
#[derive(Debug, PartialEq, Eq)]
pub enum WireError {
    /// A length or payload ran off the end of the buffer.
    UnexpectedEof,
    /// A serial type that is reserved and has no meaning (10 or 11).
    ReservedSerialType(u64),
    /// The bytes of a TEXT payload, which were not UTF-8.
    InvalidUtf8(Vec<u8>),
    /// A UNION's outer record carried this many columns instead of one.
    UnexpectedOuterColumnCount(usize),
}

/// What a [`WireError`] says.
#[verifier::ext_equal]
pub enum WireErrorView {
    UnexpectedEof,
    ReservedSerialType(u64),
    InvalidUtf8(Seq<u8>),
    UnexpectedOuterColumnCount(nat),
}

impl View for WireError {
    type V = WireErrorView;

    open spec fn view(&self) -> WireErrorView {
        match *self {
            WireError::UnexpectedEof => WireErrorView::UnexpectedEof,
            WireError::ReservedSerialType(s) => WireErrorView::ReservedSerialType(s),
            WireError::InvalidUtf8(b) => WireErrorView::InvalidUtf8(b@),
            WireError::UnexpectedOuterColumnCount(n) => WireErrorView::UnexpectedOuterColumnCount(
                n as nat,
            ),
        }
    }
}

// ---------------------------------------------------------------------------
// Varints
// ---------------------------------------------------------------------------

/// How many bytes the varint of `v` takes: one per seven bits up to eight
/// bytes, and nine for everything above.
pub open spec fn varint_width(v: nat) -> nat {
    if v <= 0x7f {
        1
    } else if v <= 0x3fff {
        2
    } else if v <= 0x1f_ffff {
        3
    } else if v <= 0x0fff_ffff {
        4
    } else if v <= 0x07_ffff_ffff {
        5
    } else if v <= 0x03ff_ffff_ffff {
        6
    } else if v <= 0x01_ffff_ffff_ffff {
        7
    } else if v <= 0x00ff_ffff_ffff_ffff {
        8
    } else {
        9
    }
}

/// The `n` low base-128 digits of `v`, most significant first, each with the
/// continuation flag set.
pub open spec fn continued(v: nat, n: nat) -> Seq<u8>
    decreases n,
{
    if n == 0 {
        Seq::empty()
    } else {
        continued(v / 128, (n - 1) as nat).push((128 + v % 128) as u8)
    }
}

/// The varint of `v`. Up to eight bytes carry seven bits each and the last
/// one has its high bit clear; the ninth byte, where there is one, carries
/// eight.
pub open spec fn varint(v: nat) -> Seq<u8> {
    if v <= 0x00ff_ffff_ffff_ffff {
        continued(v / 128, (varint_width(v) - 1) as nat).push((v % 128) as u8)
    } else {
        continued(v / 256, 8).push((v % 256) as u8)
    }
}

/// Reads on in a varint of which `i` bytes, worth `acc`, have been read.
pub open spec fn parse_varint_from(buf: Seq<u8>, i: nat, acc: nat) -> Option<(nat, nat)>
    decreases 8 - i,
{
    if buf.len() <= i {
        None
    } else if i >= 8 {
        Some((acc * 256 + buf[i as int] as nat, i + 1))
    } else if buf[i as int] < 128 {
        Some((acc * 128 + buf[i as int] as nat, i + 1))
    } else {
        parse_varint_from(buf, i + 1, (acc * 128 + (buf[i as int] - 128)) as nat)
    }
}

/// The varint at the front of `buf` and the number of its bytes; `None` where
/// the buffer ends before the varint does.
pub open spec fn parse_varint(buf: Seq<u8>) -> Option<(nat, nat)> {
    parse_varint_from(buf, 0, 0)
}

/// `128` to the power `n`.
pub open spec fn pow128(n: nat) -> nat
    decreases n,
{
    if n == 0 {
        1
    } else {
        128 * pow128((n - 1) as nat)
    }
}

proof fn lemma_pow128()
    ensures
        pow128(0) == 1,
        pow128(1) == 0x80,
        pow128(2) == 0x4000,
        pow128(3) == 0x20_0000,
        pow128(4) == 0x1000_0000,
        pow128(5) == 0x08_0000_0000,
        pow128(6) == 0x0400_0000_0000,
        pow128(7) == 0x02_0000_0000_0000,
        pow128(8) == 0x0100_0000_0000_0000,
{
    reveal_with_fuel(pow128, 9);
}

proof fn lemma_continued_len(v: nat, n: nat)
    ensures
        continued(v, n).len() == n,
    decreases n,
{
    if n > 0 {
        lemma_continued_len(v / 128, (n - 1) as nat);
    }
}

/// The varint of a number is as long as [`varint_width`] says.
pub proof fn varint_has_its_width(v: nat)
    ensures
        varint(v).len() == varint_width(v),
        1 <= varint_width(v) <= 9,
{
    lemma_continued_len(v / 128, (varint_width(v) - 1) as nat);
    lemma_continued_len(v / 256, 8);
}

/// Reading `n` continued digits of `v` from position `i` brings the reader to
/// position `i + n` with `v` behind the `acc` it started from.
proof fn lemma_read_continued(buf: Seq<u8>, i: nat, acc: nat, v: nat, n: nat)
    requires
        i + n <= 8,
        i + n <= buf.len(),
        v < pow128(n),
        buf.subrange(i as int, (i + n) as int) == continued(v, n),
    ensures
        parse_varint_from(buf, i, acc) == parse_varint_from(buf, i + n, acc * pow128(n) + v),
    decreases n,
{
    if n == 0 {
        assert(acc * pow128(0) + v == acc);
    } else {
        let m = (n - 1) as nat;
        let all = buf.subrange(i as int, (i + n) as int);
        lemma_continued_len(v / 128, m);
        assert(buf.subrange(i as int, (i + m) as int) =~= all.drop_last());
        assert(all.drop_last() =~= continued(v / 128, m));
        assert(v / 128 < pow128(m));
        lemma_read_continued(buf, i, acc, v / 128, m);
        assert(all.last() == (128 + v % 128) as u8);
        assert(buf[(i + m) as int] == all.last());
        assert((acc * pow128(m) + v / 128) * 128 + v % 128 == acc * pow128(n) + v)
            by (nonlinear_arith)
            requires
                pow128(n) == 128 * pow128(m),
                v == (v / 128) * 128 + v % 128,
        ;
    }
}

/// Every number up to `u64::MAX` is read back from its varint, whatever
/// follows it, and exactly the varint's bytes are consumed.
pub proof fn varint_reads_back(v: nat, rest: Seq<u8>)
    requires
        v <= u64::MAX,
    ensures
        parse_varint(varint(v) + rest) == Some((v, varint_width(v))),
{
    lemma_pow128();
    varint_has_its_width(v);
    let buf = varint(v) + rest;
    if v <= 0x00ff_ffff_ffff_ffff {
        let n = (varint_width(v) - 1) as nat;
        lemma_continued_len(v / 128, n);
        assert(buf.subrange(0, n as int) =~= continued(v / 128, n));
        assert(v / 128 < pow128(n));
        lemma_read_continued(buf, 0, 0, v / 128, n);
        assert(0 * pow128(n) + v / 128 == v / 128);
        assert(buf[n as int] == (v % 128) as u8);
    } else {
        lemma_continued_len(v / 256, 8);
        assert(buf.subrange(0, 8) =~= continued(v / 256, 8));
        lemma_read_continued(buf, 0, 0, v / 256, 8);
        assert(buf[8] == (v % 256) as u8);
    }
}

/// How many bytes [`write_varint`] writes for `v`.
pub fn varint_len(v: u64) -> (n: u64)
    ensures
        n == varint_width(v as nat),
{
    if v <= 0x7f {
        1
    } else if v <= 0x3fff {
        2
    } else if v <= 0x1f_ffff {
        3
    } else if v <= 0x0fff_ffff {
        4
    } else if v <= 0x07_ffff_ffff {
        5
    } else if v <= 0x03ff_ffff_ffff {
        6
    } else if v <= 0x01_ffff_ffff_ffff {
        7
    } else if v <= 0x00ff_ffff_ffff_ffff {
        8
    } else {
        9
    }
}

fn push_continued(out: &mut Vec<u8>, v: u64, n: u64)
    ensures
        final(out)@ == old(out)@ + continued(v as nat, n as nat),
    decreases n,
{
    if n > 0 {
        push_continued(out, v / 128, n - 1);
        out.push((128 + v % 128) as u8);
    }
}

/// Appends the varint of `v` to `out`.
pub fn write_varint(out: &mut Vec<u8>, v: u64)
    ensures
        final(out)@ == old(out)@ + varint(v as nat),
{
    if v <= 0x00ff_ffff_ffff_ffff {
        push_continued(out, v / 128, varint_len(v) - 1);
        out.push((v % 128) as u8);
    } else {
        push_continued(out, v / 256, 8);
        out.push((v % 256) as u8);
    }
}

/// Reads the varint at the front of `buf`; also says how many bytes it took.
pub fn read_varint(buf: &[u8]) -> (r: Result<(u64, usize), WireError>)
    ensures
        match parse_varint(buf@) {
            None => r matches Err(e) && e is UnexpectedEof,
            Some((v, n)) => r matches Ok(got) && got.0 == v && got.1 == n && n <= buf@.len(),
        },
{
    proof {
        lemma_pow128();
    }
    let mut acc: u64 = 0;
    let mut i: usize = 0;
    while i < 8
        invariant
            i <= 8,
            acc < pow128(i as nat),
            pow128(8) == 0x0100_0000_0000_0000,
            parse_varint(buf@) == parse_varint_from(buf@, i as nat, acc as nat),
        decreases 8 - i,
    {
        if i >= buf.len() {
            return Err(WireError::UnexpectedEof);
        }
        let b: u8 = buf[i];
        proof {
            lemma_pow128_grows(i as nat + 1, 8);
        }
        if b < 128 {
            return Ok((acc * 128 + b as u64, i + 1));
        }
        acc = acc * 128 + (b - 128) as u64;
        i = i + 1;
    }
    if buf.len() <= 8 {
        return Err(WireError::UnexpectedEof);
    }
    Ok((acc * 256 + buf[8] as u64, 9))
}

proof fn lemma_pow128_grows(m: nat, n: nat)
    requires
        m <= n,
    ensures
        pow128(m) <= pow128(n),
    decreases n,
{
    if m < n {
        lemma_pow128_grows(m, (n - 1) as nat);
    }
}

// ---------------------------------------------------------------------------
// Big-endian integers
// ---------------------------------------------------------------------------

/// `256` to the power `n`.
pub open spec fn pow256(n: nat) -> int
    decreases n,
{
    if n == 0 {
        1
    } else {
        256 * pow256((n - 1) as nat)
    }
}

/// The number that `bytes` spell, most significant byte first.
pub open spec fn unsigned_be(bytes: Seq<u8>) -> int
    decreases bytes.len(),
{
    if bytes.len() == 0 {
        0
    } else {
        unsigned_be(bytes.drop_last()) * 256 + bytes.last()
    }
}

/// The number that `bytes` spell in two's complement, most significant byte
/// first.
pub open spec fn signed_be(bytes: Seq<u8>) -> int {
    if bytes.len() > 0 && bytes[0] >= 128 {
        unsigned_be(bytes) - pow256(bytes.len())
    } else {
        unsigned_be(bytes)
    }
}

/// The low `n` bytes of `v` in two's complement, most significant byte first.
pub open spec fn be_bytes(v: int, n: nat) -> Seq<u8>
    decreases n,
{
    if n == 0 {
        Seq::empty()
    } else {
        be_bytes(v / 256, (n - 1) as nat).push((v % 256) as u8)
    }
}

pub(crate) proof fn lemma_pow256()
    ensures
        pow256(0) == 1,
        pow256(1) == 0x100,
        pow256(2) == 0x1_0000,
        pow256(3) == 0x100_0000,
        pow256(4) == 0x1_0000_0000,
        pow256(5) == 0x100_0000_0000,
        pow256(6) == 0x1_0000_0000_0000,
        pow256(7) == 0x100_0000_0000_0000,
        pow256(8) == 0x1_0000_0000_0000_0000,
{
    reveal_with_fuel(pow256, 9);
}

proof fn lemma_be_bytes_len(v: int, n: nat)
    ensures
        be_bytes(v, n).len() == n,
    decreases n,
{
    if n > 0 {
        lemma_be_bytes_len(v / 256, (n - 1) as nat);
    }
}

/// Adding a multiple of `256^n` does not change the low `n` bytes.
proof fn lemma_be_bytes_wrap(v: int, k: int, n: nat)
    ensures
        be_bytes(v + k * pow256(n), n) == be_bytes(v, n),
    decreases n,
{
    if n > 0 {
        let m = (n - 1) as nat;
        let p = pow256(m);
        let w = v + k * pow256(n);
        assert(w == v + 256 * (k * p)) by (nonlinear_arith)
            requires
                w == v + k * pow256(n),
                pow256(n) == 256 * p,
        ;
        assert(w / 256 == v / 256 + k * p);
        assert(w % 256 == v % 256);
        lemma_be_bytes_wrap(v / 256, k, m);
    }
}

/// The low `n` bytes of a number from `0` to `256^n - 1` spell it.
pub(crate) proof fn lemma_unsigned_be_bytes(v: int, n: nat)
    requires
        0 <= v < pow256(n),
    ensures
        unsigned_be(be_bytes(v, n)) == v,
    decreases n,
{
    if n > 0 {
        let m = (n - 1) as nat;
        lemma_unsigned_be_bytes(v / 256, m);
        assert(be_bytes(v, n).drop_last() =~= be_bytes(v / 256, m));
    }
}

/// The first of the `n` low bytes of a number below `256^n` is its quotient
/// by `256^(n-1)`.
proof fn lemma_be_bytes_first(v: int, n: nat)
    requires
        n > 0,
        0 <= v < pow256(n),
    ensures
        be_bytes(v, n)[0] == v / pow256((n - 1) as nat),
        0 <= v / pow256((n - 1) as nat) < 256,
    decreases n,
{
    let m = (n - 1) as nat;
    lemma_be_bytes_len(v / 256, m);
    lemma_pow256_positive(m);
    if m == 0 {
        assert(pow256(0) == 1);
        assert(v < 256) by {
            assert(pow256(1) == 256 * pow256(0));
        }
        assert(v / pow256(m) == v);
    } else {
        lemma_be_bytes_first(v / 256, m);
        let p = pow256((m - 1) as nat);
        lemma_pow256_positive((m - 1) as nat);
        vstd::arithmetic::div_mod::lemma_div_denominator(v, 256, p);
        assert(pow256(m) == 256 * p);
    }
}

proof fn lemma_pow256_positive(n: nat)
    ensures
        pow256(n) > 0,
    decreases n,
{
    if n > 0 {
        lemma_pow256_positive((n - 1) as nat);
    }
}

/// A number that fits in `n` bytes of two's complement is what its low `n`
/// bytes spell.
pub proof fn signed_bytes_read_back(v: int, n: nat)
    requires
        n > 0,
        -128 * pow256((n - 1) as nat) <= v < 128 * pow256((n - 1) as nat),
    ensures
        signed_be(be_bytes(v, n)) == v,
        be_bytes(v, n).len() == n,
{
    let p = pow256((n - 1) as nat);
    lemma_pow256_positive((n - 1) as nat);
    lemma_be_bytes_len(v, n);
    assert(pow256(n) == 256 * p);
    let w = if v < 0 {
        v + pow256(n)
    } else {
        v
    };
    lemma_be_bytes_wrap(v, 1, n);
    lemma_unsigned_be_bytes(w, n);
    lemma_be_bytes_first(w, n);
    if v < 0 {
        assert(w / p >= 128) by (nonlinear_arith)
            requires
                w >= 128 * p,
                p > 0,
        ;
    } else {
        assert(w / p < 128) by (nonlinear_arith)
            requires
                0 <= w < 128 * p,
                p > 0,
        ;
    }
}

/// Appends the low `n` bytes of `v`, most significant first.
fn push_be(body: &mut Vec<u8>, v: u64, n: usize)
    ensures
        final(body)@ == old(body)@ + be_bytes(v as int, n as nat),
    decreases n,
{
    if n > 0 {
        push_be(body, v / 256, n - 1);
        body.push((v % 256) as u8);
    }
}

/// The narrowest serial type that holds `n`.
pub open spec fn integer_serial(n: i64) -> u64 {
    if n == 0 {
        8
    } else if n == 1 {
        9
    } else if -0x80 <= n < 0x80 {
        1
    } else if -0x8000 <= n < 0x8000 {
        2
    } else if -0x80_0000 <= n < 0x80_0000 {
        3
    } else if -0x8000_0000 <= n < 0x8000_0000 {
        4
    } else if -0x8000_0000_0000 <= n < 0x8000_0000_0000 {
        5
    } else {
        6
    }
}

/// How many payload bytes an integer of a serial type has.
pub open spec fn integer_width(serial: u64) -> nat {
    if serial == 1 {
        1
    } else if serial == 2 {
        2
    } else if serial == 3 {
        3
    } else if serial == 4 {
        4
    } else if serial == 5 {
        6
    } else if serial == 6 {
        8
    } else {
        0
    }
}

/// No serial type with a payload that holds `n` has a shorter payload than
/// the one that `n` is written in.
pub proof fn integer_serial_is_narrowest(n: i64, serial: u64)
    requires
        1 <= serial <= 6,
        -128 * pow256((integer_width(serial) - 1) as nat) <= n,
        n < 128 * pow256((integer_width(serial) - 1) as nat),
    ensures
        integer_width(integer_serial(n)) <= integer_width(serial),
{
    lemma_pow256();
}

/// Appends the payload of `n` in the narrowest serial type that fits it, and
/// returns that serial type.
fn encode_integer(n: i64, body: &mut Vec<u8>) -> (serial: u64)
    ensures
        serial == integer_serial(n),
        final(body)@ == old(body)@ + be_bytes(n as int, integer_width(serial)),
{
    if n == 0 {
        assert(old(body)@ + be_bytes(n as int, 0) =~= old(body)@);
        return 8;
    }
    if n == 1 {
        assert(old(body)@ + be_bytes(n as int, 0) =~= old(body)@);
        return 9;
    }
    let u: u64 = n as u64;
    proof {
        assert(u == n || u == n + 0x1_0000_0000_0000_0000) by (bit_vector)
            requires
                u == n as u64,
        ;
        lemma_pow256();
        let over: int = if u == n {
            0
        } else {
            1
        };
        lemma_be_bytes_wrap(n as int, over * 0x100_0000_0000_0000, 1);
        lemma_be_bytes_wrap(n as int, over * 0x1_0000_0000_0000, 2);
        lemma_be_bytes_wrap(n as int, over * 0x100_0000_0000, 3);
        lemma_be_bytes_wrap(n as int, over * 0x1_0000_0000, 4);
        lemma_be_bytes_wrap(n as int, over * 0x1_0000, 6);
        lemma_be_bytes_wrap(n as int, over, 8);
    }
    if -0x80 <= n && n < 0x80 {
        push_be(body, u, 1);
        1
    } else if -0x8000 <= n && n < 0x8000 {
        push_be(body, u, 2);
        2
    } else if -0x80_0000 <= n && n < 0x80_0000 {
        push_be(body, u, 3);
        3
    } else if -0x8000_0000 <= n && n < 0x8000_0000 {
        push_be(body, u, 4);
        4
    } else if -0x8000_0000_0000 <= n && n < 0x8000_0000_0000 {
        push_be(body, u, 6);
        5
    } else {
        push_be(body, u, 8);
        6
    }
}

/// Reads `n` bytes at the front of `buf` as a signed big-endian integer.
pub(crate) fn read_int_be(buf: &[u8], n: usize) -> (r: Result<(i64, usize), WireError>)
    requires
        1 <= n <= 8,
    ensures
        match r {
            Ok((v, used)) => n <= buf@.len() && used == n && v == signed_be(buf@.take(n as int)),
            Err(e) => buf@.len() < n && e is UnexpectedEof,
        },
{
    if buf.len() < n {
        return Err(WireError::UnexpectedEof);
    }
    let negative: bool = buf[0] >= 128;
    let mut acc: i64 = if negative {
        -1
    } else {
        0
    };
    proof {
        lemma_pow256();
    }
    let mut i: usize = 0;
    while i < n
        invariant
            i <= n <= 8,
            n <= buf@.len(),
            negative == (buf@[0] >= 128),
            acc == unsigned_be(buf@.take(i as int)) - (if negative {
                pow256(i as nat)
            } else {
                0
            }),
            i == 0 ==> acc == (if negative {
                -1int
            } else {
                0
            }),
            i > 0 ==> -128 * pow256((i - 1) as nat) <= acc < 128 * pow256((i - 1) as nat),
            pow256(7) == 0x100_0000_0000_0000,
            pow256(0) == 1,
        decreases n - i,
    {
        proof {
            lemma_pow256_grows(i as nat, 7);
            assert(buf@.take(i as int + 1).drop_last() =~= buf@.take(i as int));
            if i > 0 {
                assert(pow256(i as nat) == 256 * pow256((i - 1) as nat));
            }
            assert(pow256((i + 1) as nat) == 256 * pow256(i as nat));
        }
        acc = acc * 256 + buf[i] as i64;
        i = i + 1;
    }
    assert(buf@.take(n as int)[0] == buf@[0]);
    Ok((acc, n))
}

proof fn lemma_pow256_grows(m: nat, n: nat)
    requires
        m <= n,
    ensures
        pow256(m) <= pow256(n),
    decreases n,
{
    if m < n {
        lemma_pow256_grows(m, (n - 1) as nat);
        lemma_pow256_positive((n - 1) as nat);
    }
}

// ---------------------------------------------------------------------------
// Values: a serial type and a payload
// ---------------------------------------------------------------------------

/// The serial type under which a value is written. A NaN is written as NULL:
/// the engine has no NaN and folds every one of them to NULL itself.
pub open spec fn serial_of(v: ValueView) -> nat {
    match v {
        ValueView::Null => 0,
        ValueView::Integer(n) => integer_serial(n) as nat,
        ValueView::Real(bits) => if value::is_nan(bits) {
            0
        } else {
            7
        },
        ValueView::Text(s) => 13 + 2 * encode_utf8(s).len(),
        ValueView::Blob(b) => 12 + 2 * b.len(),
    }
}

/// The payload bytes of a value.
pub open spec fn payload_of(v: ValueView) -> Seq<u8> {
    match v {
        ValueView::Null => Seq::empty(),
        ValueView::Integer(n) => be_bytes(n as int, integer_width(integer_serial(n))),
        ValueView::Real(bits) => if value::is_nan(bits) {
            Seq::empty()
        } else {
            be_bytes(bits as int, 8)
        },
        ValueView::Text(s) => encode_utf8(s),
        ValueView::Blob(b) => b,
    }
}

/// What a value is after a trip through the wire: itself, but for a NaN,
/// which comes back as NULL.
pub open spec fn stored(v: ValueView) -> ValueView {
    match v {
        ValueView::Real(bits) => if value::is_nan(bits) {
            ValueView::Null
        } else {
            v
        },
        _ => v,
    }
}

/// Whether the serial type of a value is a number below 2^64.
pub open spec fn serial_fits(v: ValueView) -> bool {
    serial_of(v) <= u64::MAX
}

/// The value of a serial type at the front of `buf` and the number of payload
/// bytes it took.
pub open spec fn parse_value(serial: u64, buf: Seq<u8>) -> Result<
    (ValueView, nat),
    WireErrorView,
> {
    if serial == 0 {
        Ok((ValueView::Null, 0))
    } else if serial <= 6 {
        let n = integer_width(serial);
        if buf.len() < n {
            Err(WireErrorView::UnexpectedEof)
        } else {
            Ok((ValueView::Integer(signed_be(buf.take(n as int)) as i64), n))
        }
    } else if serial == 7 {
        if buf.len() < 8 {
            Err(WireErrorView::UnexpectedEof)
        } else {
            Ok((ValueView::Real(unsigned_be(buf.take(8)) as u64), 8))
        }
    } else if serial == 8 {
        Ok((ValueView::Integer(0), 0))
    } else if serial == 9 {
        Ok((ValueView::Integer(1), 0))
    } else if serial < 12 {
        Err(WireErrorView::ReservedSerialType(serial))
    } else {
        let n = ((serial - 12) / 2) as nat;
        if buf.len() < n {
            Err(WireErrorView::UnexpectedEof)
        } else if serial % 2 == 0 {
            Ok((ValueView::Blob(buf.take(n as int)), n))
        } else if valid_utf8(buf.take(n as int)) {
            Ok((ValueView::Text(decode_utf8(buf.take(n as int))), n))
        } else {
            Err(WireErrorView::InvalidUtf8(buf.take(n as int)))
        }
    }
}

/// Calls `String::from_utf8`: the text that the bytes encode where they are
/// UTF-8, and the bytes handed back where they are not.
#[verifier::external_body]
fn text_from_utf8(bytes: Vec<u8>) -> (r: Result<String, Vec<u8>>)
    ensures
        r is Ok <==> valid_utf8(bytes@),
        r matches Ok(s) ==> s@ == decode_utf8(bytes@),
        r matches Err(b) ==> b@ == bytes@,
{
    String::from_utf8(bytes).map_err(|e| e.into_bytes())
}

pub(crate) proof fn lemma_signed_be_range(bytes: Seq<u8>)
    requires
        0 < bytes.len() <= 8,
    ensures
        i64::MIN <= signed_be(bytes) <= i64::MAX,
        0 <= unsigned_be(bytes) <= u64::MAX,
{
    lemma_pow256();
    lemma_unsigned_be_range(bytes);
    lemma_pow256_grows(bytes.len(), 8);
    lemma_first_byte_rules(bytes);
    let p = pow256((bytes.len() - 1) as nat);
    lemma_pow256_grows((bytes.len() - 1) as nat, 7);
    assert(pow256(bytes.len()) == 256 * p);
}

pub(crate) proof fn lemma_unsigned_be_range(bytes: Seq<u8>)
    ensures
        0 <= unsigned_be(bytes) < pow256(bytes.len()),
    decreases bytes.len(),
{
    if bytes.len() > 0 {
        lemma_unsigned_be_range(bytes.drop_last());
    }
}

/// The number that bytes spell lies in the span that the first one opens.
proof fn lemma_first_byte_rules(bytes: Seq<u8>)
    requires
        bytes.len() > 0,
    ensures
        bytes[0] * pow256((bytes.len() - 1) as nat) <= unsigned_be(bytes),
        unsigned_be(bytes) < (bytes[0] + 1) * pow256((bytes.len() - 1) as nat),
        bytes[0] >= 128 ==> 128 * pow256((bytes.len() - 1) as nat) <= unsigned_be(bytes),
        bytes[0] < 128 ==> unsigned_be(bytes) < 128 * pow256((bytes.len() - 1) as nat),
    decreases bytes.len(),
{
    let n = (bytes.len() - 1) as nat;
    let b = bytes[0] as int;
    lemma_pow256_positive(n);
    let p = pow256(n);
    if n == 0 {
        assert(unsigned_be(bytes.drop_last()) == 0);
        assert(bytes.last() == bytes[0]);
        assert(b * p == b && (b + 1) * p == b + 1) by (nonlinear_arith)
            requires
                p == 1,
        ;
    } else {
        let front = bytes.drop_last();
        lemma_first_byte_rules(front);
        assert(front[0] == bytes[0]);
        let q = pow256((n - 1) as nat);
        let u = unsigned_be(front);
        assert(b * p == 256 * (b * q) && (b + 1) * p == 256 * ((b + 1) * q)) by (nonlinear_arith)
            requires
                p == 256 * q,
        ;
    }
    assert(b >= 128 ==> b * p >= 128 * p) by (nonlinear_arith)
        requires
            p > 0,
    ;
    assert(b < 128 ==> (b + 1) * p <= 128 * p) by (nonlinear_arith)
        requires
            p > 0,
    ;
}

/// A value is read back from its serial type and payload, whatever follows
/// the payload, and exactly the payload is consumed.
pub proof fn value_reads_back(v: ValueView, rest: Seq<u8>)
    requires
        serial_fits(v),
    ensures
        parse_value(serial_of(v) as u64, payload_of(v) + rest) == Ok::<_, WireErrorView>(
            (stored(v), payload_of(v).len()),
        ),
{
    let buf = payload_of(v) + rest;
    let n = payload_of(v).len();
    assert(buf.take(n as int) =~= payload_of(v));
    match v {
        ValueView::Null => {},
        ValueView::Integer(i) => {
            lemma_pow256();
            if i != 0 && i != 1 {
                signed_bytes_read_back(i as int, integer_width(integer_serial(i)));
            } else {
                lemma_be_bytes_len(i as int, 0);
            }
        },
        ValueView::Real(bits) => {
            if !value::is_nan(bits) {
                lemma_pow256();
                lemma_be_bytes_len(bits as int, 8);
                lemma_unsigned_be_bytes(bits as int, 8);
            }
        },
        ValueView::Text(s) => {
            vstd::utf8::encode_utf8_valid_utf8(s);
            vstd::utf8::encode_utf8_decode_utf8(s);
        },
        ValueView::Blob(b) => {},
    }
}

fn append_bytes(out: &mut Vec<u8>, bytes: &[u8])
    ensures
        final(out)@ == old(out)@ + bytes@,
{
    out.extend_from_slice(bytes);
    assert(out@ =~= old(out)@ + bytes@);
}

/// Appends the payload of `v` and returns its serial type.
fn encode_value(v: &Value, body: &mut Vec<u8>) -> (serial: u64)
    requires
        serial_fits(v@),
    ensures
        serial == serial_of(v@),
        final(body)@ == old(body)@ + payload_of(v@),
{
    match v {
        Value::Null => {
            assert(body@ + payload_of(v@) =~= body@);
            0
        },
        Value::Integer(n) => encode_integer(*n, body),
        Value::Real(bits) => {
            if real_is_nan(*bits) {
                assert(body@ + payload_of(v@) =~= body@);
                0
            } else {
                push_be(body, *bits, 8);
                7
            }
        },
        Value::Text(s) => {
            let bytes: &[u8] = s.as_str().as_bytes();
            append_bytes(body, bytes);
            13 + (bytes.len() as u64) * 2
        },
        Value::Blob(b) => {
            append_bytes(body, b.as_slice());
            12 + (b.len() as u64) * 2
        },
    }
}

/// What a decoding of one value came to.
pub open spec fn value_outcome(r: Result<(Value, usize), WireError>) -> Result<
    (ValueView, nat),
    WireErrorView,
> {
    match r {
        Ok((v, n)) => Ok((v@, n as nat)),
        Err(e) => Err(e@),
    }
}

/// Decodes the value of a serial type at the front of `buf`; also says how
/// many payload bytes it took.
fn decode_value(serial: u64, buf: &[u8]) -> (r: Result<(Value, usize), WireError>)
    ensures
        value_outcome(r) == parse_value(serial, buf@),
        r matches Ok((_, n)) ==> n <= buf@.len(),
{
    if serial == 0 {
        return Ok((Value::Null, 0));
    }
    if serial <= 6 {
        let n: usize = if serial <= 4 {
            serial as usize
        } else if serial == 5 {
            6
        } else {
            8
        };
        proof {
            if n <= buf@.len() {
                lemma_signed_be_range(buf@.take(n as int));
            }
        }
        return match read_int_be(buf, n) {
            Ok((v, used)) => Ok((Value::Integer(v), used)),
            Err(e) => Err(e),
        };
    }
    if serial == 7 {
        if buf.len() < 8 {
            return Err(WireError::UnexpectedEof);
        }
        return Ok((Value::Real(read_uint_be(buf, 8)), 8));
    }
    if serial == 8 {
        return Ok((Value::Integer(0), 0));
    }
    if serial == 9 {
        return Ok((Value::Integer(1), 0));
    }
    if serial < 12 {
        return Err(WireError::ReservedSerialType(serial));
    }
    let claimed: u64 = (serial - 12) / 2;
    if (buf.len() as u64) < claimed {
        return Err(WireError::UnexpectedEof);
    }
    let len: usize = claimed as usize;
    let bytes: Vec<u8> = vstd::slice::slice_to_vec(slice_subrange(buf, 0, len));
    assert(bytes@ =~= buf@.take(len as int));
    if serial % 2 == 0 {
        return Ok((Value::Blob(bytes), len));
    }
    match text_from_utf8(bytes) {
        Ok(text) => Ok((Value::Text(text), len)),
        Err(bytes) => Err(WireError::InvalidUtf8(bytes)),
    }
}

/// Reads the `n` bytes at the front of `buf`, most significant first.
pub(crate) fn read_uint_be(buf: &[u8], n: usize) -> (v: u64)
    requires
        n <= 8,
        n <= buf@.len(),
    ensures
        v == unsigned_be(buf@.take(n as int)),
{
    let mut acc: u64 = 0;
    let mut i: usize = 0;
    proof {
        lemma_pow256();
    }
    while i < n
        invariant
            i <= n <= 8,
            n <= buf@.len(),
            acc == unsigned_be(buf@.take(i as int)),
            acc < pow256(i as nat),
            pow256(7) == 0x100_0000_0000_0000,
        decreases n - i,
    {
        proof {
            lemma_pow256_grows(i as nat, 7);
            assert(buf@.take(i as int + 1).drop_last() =~= buf@.take(i as int));
        }
        acc = acc * 256 + buf[i] as u64;
        i = i + 1;
    }
    acc
}

// ---------------------------------------------------------------------------
// Records
// ---------------------------------------------------------------------------

/// The varints of the values' serial types, back to back.
pub open spec fn serials(values: Seq<ValueView>) -> Seq<u8>
    decreases values.len(),
{
    if values.len() == 0 {
        Seq::empty()
    } else {
        varint(serial_of(values[0])) + serials(values.drop_first())
    }
}

/// The payloads of the values, back to back.
pub open spec fn payloads(values: Seq<ValueView>) -> Seq<u8>
    decreases values.len(),
{
    if values.len() == 0 {
        Seq::empty()
    } else {
        payload_of(values[0]) + payloads(values.drop_first())
    }
}

/// How many bytes the header's own size takes in front of `n` bytes of serial
/// types: the fewest in which the size of the whole header, these bytes
/// counted in, can be written.
pub open spec fn size_width(n: nat) -> nat {
    if n + 1 <= 0x7f {
        1
    } else if n + 2 <= 0x3fff {
        2
    } else if n + 3 <= 0x1f_ffff {
        3
    } else if n + 4 <= 0x0fff_ffff {
        4
    } else if n + 5 <= 0x07_ffff_ffff {
        5
    } else if n + 6 <= 0x03ff_ffff_ffff {
        6
    } else if n + 7 <= 0x01_ffff_ffff_ffff {
        7
    } else if n + 8 <= 0x00ff_ffff_ffff_ffff {
        8
    } else {
        9
    }
}

/// The record of a list of values: the size of the header, the serial types,
/// the payloads.
pub open spec fn record(values: Seq<ValueView>) -> Seq<u8> {
    let n = serials(values).len();
    varint(n + size_width(n)) + serials(values) + payloads(values)
}

/// Whether every number that the record of `values` spells is below 2^64.
pub open spec fn recordable(values: Seq<ValueView>) -> bool {
    &&& forall|i: int| 0 <= i < values.len() ==> serial_fits(#[trigger] values[i])
    &&& values.len() <= 0x0fff_ffff_ffff_ffff
}

proof fn lemma_serials_len(values: Seq<ValueView>)
    ensures
        serials(values).len() <= 9 * values.len(),
    decreases values.len(),
{
    if values.len() > 0 {
        varint_has_its_width(serial_of(values[0]));
        lemma_serials_len(values.drop_first());
    }
}

/// The values whose serial types fill `header` and whose payloads stand at
/// the front of `body`.
pub open spec fn parse_columns(header: Seq<u8>, body: Seq<u8>) -> Result<
    Seq<ValueView>,
    WireErrorView,
>
    decreases header.len(),
{
    if header.len() == 0 {
        Ok(Seq::empty())
    } else {
        match parse_varint(header) {
            None => Err(WireErrorView::UnexpectedEof),
            Some((serial, used)) => match parse_value(serial as u64, body) {
                Err(e) => Err(e),
                Ok((v, n)) => if 0 < used <= header.len() && n <= body.len() {
                    match parse_columns(header.skip(used as int), body.skip(n as int)) {
                        Err(e) => Err(e),
                        Ok(rest) => Ok(seq![v] + rest),
                    }
                } else {
                    Err(WireErrorView::UnexpectedEof)
                },
            },
        }
    }
}

/// The column values of the record that `buf` holds.
pub open spec fn parse_record(buf: Seq<u8>) -> Result<Seq<ValueView>, WireErrorView> {
    match parse_varint(buf) {
        None => Err(WireErrorView::UnexpectedEof),
        Some((size, used)) => {
            let end = size;
            if end < used || buf.len() < end {
                Err(WireErrorView::UnexpectedEof)
            } else {
                parse_columns(buf.subrange(used as int, end as int), buf.skip(end as int))
            }
        },
    }
}

/// What a decoding of a record came to.
pub open spec fn record_outcome(r: Result<Vec<Value>, WireError>) -> Result<
    Seq<ValueView>,
    WireErrorView,
> {
    match r {
        Ok(values) => Ok(value::views(values@)),
        Err(e) => Err(e@),
    }
}

/// What the wire keeps of a list of values.
pub open spec fn all_stored(values: Seq<ValueView>) -> Seq<ValueView> {
    Seq::new(values.len(), |i: int| stored(values[i]))
}

proof fn lemma_columns_read_back(values: Seq<ValueView>)
    requires
        forall|i: int| 0 <= i < values.len() ==> serial_fits(#[trigger] values[i]),
    ensures
        parse_columns(serials(values), payloads(values)) == Ok::<_, WireErrorView>(
            all_stored(values),
        ),
    decreases values.len(),
{
    if values.len() == 0 {
        assert(all_stored(values) =~= Seq::empty());
    } else {
        let v = values[0];
        let rest = values.drop_first();
        assert forall|i: int| 0 <= i < rest.len() implies serial_fits(#[trigger] rest[i]) by {
            assert(rest[i] == values[i + 1]);
        }
        let header = serials(values);
        let body = payloads(values);
        varint_has_its_width(serial_of(v));
        varint_reads_back(serial_of(v), serials(rest));
        value_reads_back(v, payloads(rest));
        assert(header.skip(varint_width(serial_of(v)) as int) =~= serials(rest));
        assert(body.skip(payload_of(v).len() as int) =~= payloads(rest));
        lemma_columns_read_back(rest);
        assert(seq![stored(v)] + all_stored(rest) =~= all_stored(values));
    }
}

/// A record is read back as the values it was made of, with every NaN turned
/// into NULL and nothing else changed.
pub proof fn record_reads_back(values: Seq<ValueView>)
    requires
        recordable(values),
    ensures
        parse_record(record(values)) == Ok::<_, WireErrorView>(all_stored(values)),
{
    lemma_serials_len(values);
    let n = serials(values).len();
    let w = size_width(n);
    let buf = record(values);
    assert(varint_width(n + w) == w);
    varint_has_its_width(n + w);
    varint_reads_back(n + w, serials(values) + payloads(values));
    assert(buf =~= varint(n + w) + (serials(values) + payloads(values)));
    assert(buf.subrange(w as int, (n + w) as int) =~= serials(values));
    assert(buf.skip((n + w) as int) =~= payloads(values));
    lemma_columns_read_back(values);
}

/// Two lists of values with the same record are the same list, up to NaNs and
/// NULLs: one logical value has one byte string and no two share one.
pub proof fn record_is_injective(a: Seq<ValueView>, b: Seq<ValueView>)
    requires
        recordable(a),
        recordable(b),
        record(a) == record(b),
    ensures
        all_stored(a) == all_stored(b),
{
    record_reads_back(a);
    record_reads_back(b);
}

/// Values that the wire does not tell apart have the same record.
pub proof fn stored_values_share_a_record(a: Seq<ValueView>, b: Seq<ValueView>)
    requires
        all_stored(a) == all_stored(b),
    ensures
        record(a) == record(b),
{
    lemma_stored_serials(a);
    lemma_stored_serials(b);
}

proof fn lemma_stored_serials(values: Seq<ValueView>)
    ensures
        serials(values) == serials(all_stored(values)),
        payloads(values) == payloads(all_stored(values)),
    decreases values.len(),
{
    if values.len() > 0 {
        lemma_stored_serials(values.drop_first());
        assert(all_stored(values).drop_first() =~= all_stored(values.drop_first()));
    }
}

/// Encodes values as one record.
pub fn encode_record(values: &[Value]) -> (out: Vec<u8>)
    requires
        recordable(value::views(values@)),
    ensures
        out@ == record(value::views(values@)),
{
    let mut out: Vec<u8> = Vec::new();
    encode_record_into(values, &mut out);
    assert(out@ =~= record(value::views(values@)));
    out
}

fn encode_record_into(values: &[Value], out: &mut Vec<u8>)
    requires
        recordable(value::views(values@)),
    ensures
        final(out)@ == old(out)@ + record(value::views(values@)),
{
    let ghost all = value::views(values@);
    let mut serial_bytes: Vec<u8> = Vec::new();
    let mut body_bytes: Vec<u8> = Vec::new();
    let mut i: usize = 0;
    assert(all.skip(0) =~= all);
    assert(serial_bytes@ + serials(all) =~= serials(all));
    assert(body_bytes@ + payloads(all) =~= payloads(all));
    while i < values.len()
        invariant
            i <= values@.len(),
            all == value::views(values@),
            recordable(all),
            serial_bytes@ + serials(all.skip(i as int)) == serials(all),
            body_bytes@ + payloads(all.skip(i as int)) == payloads(all),
        decreases values@.len() - i,
    {
        assert(all.skip(i as int)[0] == all[i as int]);
        assert(serial_fits(all[i as int]));
        let ghost rest = all.skip(i as int + 1);
        assert(all.skip(i as int).drop_first() =~= rest);
        let ghost serials_before = serial_bytes@;
        let ghost bodies_before = body_bytes@;
        let serial: u64 = encode_value(&values[i], &mut body_bytes);
        write_varint(&mut serial_bytes, serial);
        assert(serial_bytes@ + serials(rest) =~= serials_before + (varint(serial_of(all[i as int]))
            + serials(rest)));
        assert(body_bytes@ + payloads(rest) =~= bodies_before + (payload_of(all[i as int])
            + payloads(rest)));
        i = i + 1;
    }
    assert(serial_bytes@ =~= serials(all));
    assert(body_bytes@ =~= payloads(all));
    proof {
        lemma_serials_len(all);
    }

    // The size of the header counts the bytes of that size too: widen them
    // until the size fits in as many as were counted.
    let serials_len: u64 = serial_bytes.len() as u64;
    let mut len_bytes: u64 = 1;
    let mut header_size: u64 = serials_len + len_bytes;
    let mut needed: u64 = varint_len(header_size);
    while needed != len_bytes
        invariant
            1 <= len_bytes <= size_width(serials_len as nat),
            serials_len + 9 <= u64::MAX,
            header_size == serials_len + len_bytes,
            needed == varint_width(header_size as nat),
            len_bytes <= needed,
        decreases 9 - len_bytes,
    {
        len_bytes = needed;
        header_size = serials_len + len_bytes;
        needed = varint_len(header_size);
    }
    assert(len_bytes == size_width(serials_len as nat));
    write_varint(out, header_size);
    append_bytes(out, serial_bytes.as_slice());
    append_bytes(out, body_bytes.as_slice());
    assert(out@ =~= old(out)@ + record(all));
}

/// Decodes a record into its column values.
///
/// A record carries storage classes and nothing else: a layout that differs
/// from the one the bytes were written under usually decodes without
/// complaint.
pub fn decode_record(buf: &[u8]) -> (r: Result<Vec<Value>, WireError>)
    ensures
        record_outcome(r) == parse_record(buf@),
{
    let (header_size, len_consumed): (u64, usize) = match read_varint(buf) {
        Ok(read) => read,
        Err(e) => {
            return Err(e);
        },
    };
    if header_size < len_consumed as u64 || (buf.len() as u64) < header_size {
        return Err(WireError::UnexpectedEof);
    }
    let header_end: usize = header_size as usize;
    let mut header: &[u8] = slice_subrange(buf, len_consumed, header_end);
    let mut body: &[u8] = slice_subrange(buf, header_end, buf.len());
    assert(body@ =~= buf@.skip(header_end as int));
    let ghost whole = parse_columns(header@, body@);
    let mut values: Vec<Value> = Vec::new();
    proof {
        lemma_prepend_nothing(whole);
        assert(value::views(values@) =~= Seq::empty());
    }
    while header.len() > 0
        invariant
            whole == parse_record(buf@),
            whole == prepended(value::views(values@), parse_columns(header@, body@)),
        decreases header@.len(),
    {
        let (serial, consumed): (u64, usize) = match read_varint(header) {
            Ok(read) => read,
            Err(e) => {
                return Err(e);
            },
        };
        proof {
            lemma_parse_varint_used(header@, 0, 0);
        }
        let (v, data_bytes): (Value, usize) = match decode_value(serial, body) {
            Ok(decoded) => decoded,
            Err(e) => {
                return Err(e);
            },
        };
        let ghost before = value::views(values@);
        let ghost rest = parse_columns(
            header@.skip(consumed as int),
            body@.skip(data_bytes as int),
        );
        let ghost view = v@;
        header = slice_subrange(header, consumed, header.len());
        body = slice_subrange(body, data_bytes, body.len());
        values.push(v);
        proof {
            assert(value::views(values@) =~= before.push(view));
            lemma_prepend_one(before, view, rest);
        }
    }
    assert(value::views(values@) + Seq::<ValueView>::empty() =~= value::views(values@));
    Ok(values)
}

/// `first` in front of the values that `r` holds, where it holds any.
spec fn prepended(
    first: Seq<ValueView>,
    r: Result<Seq<ValueView>, WireErrorView>,
) -> Result<Seq<ValueView>, WireErrorView> {
    match r {
        Ok(rest) => Ok(first + rest),
        Err(e) => Err(e),
    }
}

proof fn lemma_prepend_nothing(r: Result<Seq<ValueView>, WireErrorView>)
    ensures
        prepended(Seq::empty(), r) == r,
{
    if let Ok(rest) = r {
        assert(Seq::<ValueView>::empty() + rest =~= rest);
    }
}

proof fn lemma_prepend_one(
    first: Seq<ValueView>,
    v: ValueView,
    r: Result<Seq<ValueView>, WireErrorView>,
)
    ensures
        prepended(first, prepended(seq![v], r)) == prepended(first.push(v), r),
{
    if let Ok(rest) = r {
        assert(first + (seq![v] + rest) =~= first.push(v) + rest);
    }
}

proof fn lemma_parse_varint_used(buf: Seq<u8>, i: nat, acc: nat)
    ensures
        parse_varint_from(buf, i, acc) matches Some((_, n)) ==> i < n <= buf.len(),
    decreases 8 - i,
{
    if i < 8 && i < buf.len() {
        lemma_parse_varint_used(buf, i + 1, (acc * 128 + (buf[i as int] - 128)) as nat);
    }
}

// ---------------------------------------------------------------------------
// UNION framing
// ---------------------------------------------------------------------------

/// The wire bytes of a UNION value: the tag, then the outer record.
pub open spec fn union_blob(tag_index: u8, outer: ValueView) -> Seq<u8> {
    seq![tag_index] + record(seq![outer])
}

/// The tag and the outer column of a UNION value's wire bytes.
pub open spec fn parse_union(buf: Seq<u8>) -> Result<(u8, ValueView), WireErrorView> {
    if buf.len() == 0 {
        Err(WireErrorView::UnexpectedEof)
    } else {
        match parse_record(buf.skip(1)) {
            Err(e) => Err(e),
            Ok(columns) => if columns.len() != 1 {
                Err(WireErrorView::UnexpectedOuterColumnCount(columns.len()))
            } else {
                Ok((buf[0], columns[0]))
            },
        }
    }
}

/// What a decoding of a UNION value came to.
pub open spec fn union_outcome(r: Result<(u8, Value), WireError>) -> Result<
    (u8, ValueView),
    WireErrorView,
> {
    match r {
        Ok((tag, v)) => Ok((tag, v@)),
        Err(e) => Err(e@),
    }
}

/// Encodes a UNION value. `outer` is the variant's one column: the scalar of
/// a scalar variant, or a blob with the inner record of a struct variant.
pub fn encode_union(tag_index: u8, outer: Value) -> (out: Vec<u8>)
    requires
        serial_fits(outer@),
    ensures
        out@ == union_blob(tag_index, outer@),
{
    let ghost column = outer@;
    let mut out: Vec<u8> = Vec::new();
    out.push(tag_index);
    let mut columns: Vec<Value> = Vec::new();
    columns.push(outer);
    assert(value::views(columns@) =~= seq![column]);
    proof {
        lemma_one_column_is_recordable(column);
    }
    encode_record_into(columns.as_slice(), &mut out);
    assert(out@ =~= union_blob(tag_index, column));
    out
}

proof fn lemma_one_column_is_recordable(column: ValueView)
    requires
        serial_fits(column),
    ensures
        recordable(seq![column]),
{
}

/// Decodes a UNION value to its tag and its outer column.
pub fn decode_union(buf: &[u8]) -> (r: Result<(u8, Value), WireError>)
    ensures
        union_outcome(r) == parse_union(buf@),
{
    if buf.len() == 0 {
        return Err(WireError::UnexpectedEof);
    }
    let tag: u8 = buf[0];
    let inner: &[u8] = slice_subrange(buf, 1, buf.len());
    assert(inner@ =~= buf@.skip(1));
    let mut outer: Vec<Value> = match decode_record(inner) {
        Ok(outer) => outer,
        Err(e) => {
            return Err(e);
        },
    };
    if outer.len() != 1 {
        return Err(WireError::UnexpectedOuterColumnCount(outer.len()));
    }
    assert(value::views(outer@)[0] == outer@[0]@);
    let column: Value = outer.remove(0);
    Ok((tag, column))
}

/// A UNION value is read back with its tag and its outer column, but for a
/// NaN, which comes back as NULL.
pub proof fn union_reads_back(tag_index: u8, outer: ValueView)
    requires
        serial_fits(outer),
    ensures
        parse_union(union_blob(tag_index, outer)) == Ok::<_, WireErrorView>(
            (tag_index, stored(outer)),
        ),
{
    lemma_one_column_is_recordable(outer);
    let buf = union_blob(tag_index, outer);
    assert(buf.skip(1) =~= record(seq![outer]));
    record_reads_back(seq![outer]);
}

/// A struct variant is read back field by field through its two records.
pub proof fn struct_variant_reads_back(tag_index: u8, fields: Seq<ValueView>)
    requires
        recordable(fields),
        serial_fits(ValueView::Blob(record(fields))),
    ensures
        parse_union(union_blob(tag_index, ValueView::Blob(record(fields)))) == Ok::<
            _,
            WireErrorView,
        >((tag_index, ValueView::Blob(record(fields)))),
        parse_record(record(fields)) == Ok::<_, WireErrorView>(all_stored(fields)),
{
    let inner = ValueView::Blob(record(fields));
    union_reads_back(tag_index, inner);
    record_reads_back(fields);
}

/// Two UNION values with the same bytes have the same tag and, up to NaNs and
/// NULLs, the same outer column.
pub proof fn union_is_injective(tag_a: u8, a: ValueView, tag_b: u8, b: ValueView)
    requires
        serial_fits(a),
        serial_fits(b),
        union_blob(tag_a, a) == union_blob(tag_b, b),
    ensures
        tag_a == tag_b,
        stored(a) == stored(b),
{
    union_reads_back(tag_a, a);
    union_reads_back(tag_b, b);
}

} // verus!
