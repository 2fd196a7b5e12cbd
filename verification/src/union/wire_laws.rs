//! The record format in numbers, as any other reader or writer of it has them:
//! which bytes a value takes, and which value bytes stand for.

use vstd::prelude::*;
use vstd::utf8::{decode_utf8, encode_utf8, valid_utf8};

use crate::union::wire;
use crate::union::wire::WireErrorView;
use crate::value;
use crate::value::ValueView;

verus! {

// ---------------------------------------------------------------------------
// Varints
// ---------------------------------------------------------------------------

/// A varint has its most significant group of seven bits first. Every byte but
/// the last has its high bit set; the ninth byte, where there is one, is the
/// last and has eight bits of the number.
pub proof fn varints_are_groups_of_seven_bits(v: nat)
    requires
        v <= u64::MAX,
    ensures
        v < 0x80 ==> {
            &&& wire::varint(v).len() == 1
            &&& v == wire::varint(v)[0]
            &&& wire::varint(v)[0] < 128
        },
        0x80 <= v < 0x4000 ==> {
            &&& wire::varint(v).len() == 2
            &&& v == (wire::varint(v)[0] - 128) * 0x80 + wire::varint(v)[1]
            &&& wire::varint(v)[0] >= 128 && wire::varint(v)[1] < 128
        },
        0x4000 <= v < 0x200000 ==> {
            &&& wire::varint(v).len() == 3
            &&& v == (wire::varint(v)[0] - 128) * 0x4000 + (wire::varint(v)[1] - 128) * 0x80 + wire::varint(v)[2]
            &&& wire::varint(v)[0] >= 128 && wire::varint(v)[1] >= 128 && wire::varint(v)[2] < 128
        },
        0x200000 <= v < 0x10000000 ==> {
            &&& wire::varint(v).len() == 4
            &&& v == (wire::varint(v)[0] - 128) * 0x200000 + (wire::varint(v)[1] - 128) * 0x4000 + (wire::varint(v)[2] - 128) * 0x80 + wire::varint(v)[3]
            &&& wire::varint(v)[0] >= 128 && wire::varint(v)[1] >= 128 && wire::varint(v)[2] >= 128 && wire::varint(v)[3] < 128
        },
        0x10000000 <= v < 0x800000000 ==> {
            &&& wire::varint(v).len() == 5
            &&& v == (wire::varint(v)[0] - 128) * 0x10000000 + (wire::varint(v)[1] - 128) * 0x200000 + (wire::varint(v)[2] - 128) * 0x4000 + (wire::varint(v)[3] - 128) * 0x80 + wire::varint(v)[4]
            &&& wire::varint(v)[0] >= 128 && wire::varint(v)[1] >= 128 && wire::varint(v)[2] >= 128 && wire::varint(v)[3] >= 128 && wire::varint(v)[4] < 128
        },
        0x800000000 <= v < 0x40000000000 ==> {
            &&& wire::varint(v).len() == 6
            &&& v == (wire::varint(v)[0] - 128) * 0x800000000 + (wire::varint(v)[1] - 128) * 0x10000000 + (wire::varint(v)[2] - 128) * 0x200000 + (wire::varint(v)[3] - 128) * 0x4000 + (wire::varint(v)[4] - 128) * 0x80 + wire::varint(v)[5]
            &&& wire::varint(v)[0] >= 128 && wire::varint(v)[1] >= 128 && wire::varint(v)[2] >= 128 && wire::varint(v)[3] >= 128 && wire::varint(v)[4] >= 128 && wire::varint(v)[5] < 128
        },
        0x40000000000 <= v < 0x2000000000000 ==> {
            &&& wire::varint(v).len() == 7
            &&& v == (wire::varint(v)[0] - 128) * 0x40000000000 + (wire::varint(v)[1] - 128) * 0x800000000 + (wire::varint(v)[2] - 128) * 0x10000000 + (wire::varint(v)[3] - 128) * 0x200000 + (wire::varint(v)[4] - 128) * 0x4000 + (wire::varint(v)[5] - 128) * 0x80 + wire::varint(v)[6]
            &&& wire::varint(v)[0] >= 128 && wire::varint(v)[1] >= 128 && wire::varint(v)[2] >= 128 && wire::varint(v)[3] >= 128 && wire::varint(v)[4] >= 128 && wire::varint(v)[5] >= 128 && wire::varint(v)[6] < 128
        },
        0x2000000000000 <= v < 0x100000000000000 ==> {
            &&& wire::varint(v).len() == 8
            &&& v == (wire::varint(v)[0] - 128) * 0x2000000000000 + (wire::varint(v)[1] - 128) * 0x40000000000 + (wire::varint(v)[2] - 128) * 0x800000000 + (wire::varint(v)[3] - 128) * 0x10000000 + (wire::varint(v)[4] - 128) * 0x200000 + (wire::varint(v)[5] - 128) * 0x4000 + (wire::varint(v)[6] - 128) * 0x80 + wire::varint(v)[7]
            &&& wire::varint(v)[0] >= 128 && wire::varint(v)[1] >= 128 && wire::varint(v)[2] >= 128 && wire::varint(v)[3] >= 128 && wire::varint(v)[4] >= 128 && wire::varint(v)[5] >= 128 && wire::varint(v)[6] >= 128 && wire::varint(v)[7] < 128
        },
        v >= 0x100000000000000 ==> {
            &&& wire::varint(v).len() == 9
            &&& v == (wire::varint(v)[0] - 128) * 0x200000000000000 + (wire::varint(v)[1] - 128) * 0x4000000000000 + (wire::varint(v)[2] - 128) * 0x80000000000 + (wire::varint(v)[3] - 128) * 0x1000000000 + (wire::varint(v)[4] - 128) * 0x20000000 + (wire::varint(v)[5] - 128) * 0x400000 + (wire::varint(v)[6] - 128) * 0x8000 + (wire::varint(v)[7] - 128) * 0x100 + wire::varint(v)[8]
            &&& wire::varint(v)[0] >= 128 && wire::varint(v)[1] >= 128 && wire::varint(v)[2] >= 128 && wire::varint(v)[3] >= 128 && wire::varint(v)[4] >= 128 && wire::varint(v)[5] >= 128 && wire::varint(v)[6] >= 128 && wire::varint(v)[7] >= 128
        },
{
    if 0x80 <= v < 0x4000 {
        lemma_varint_of_2(v);
    }
    if 0x4000 <= v < 0x200000 {
        lemma_varint_of_3(v);
    }
    if 0x200000 <= v < 0x10000000 {
        lemma_varint_of_4(v);
    }
    if 0x10000000 <= v < 0x800000000 {
        lemma_varint_of_5(v);
    }
    if 0x800000000 <= v < 0x40000000000 {
        lemma_varint_of_6(v);
    }
    if 0x40000000000 <= v < 0x2000000000000 {
        lemma_varint_of_7(v);
    }
    if 0x2000000000000 <= v < 0x100000000000000 {
        lemma_varint_of_8(v);
    }
    if v >= 0x100000000000000 {
        lemma_varint_of_9(v);
    }
    if v < 128 {
        reveal_with_fuel(wire::continued, 1);
        assert(wire::varint(v) =~= seq![v as u8]);
    }
}

proof fn lemma_varint_of_2(v: nat)
    requires
        0x80 <= v < 0x4000,
        v <= u64::MAX,
    ensures
        wire::varint(v).len() == 2,
        v == (wire::varint(v)[0] - 128) * 0x80 + wire::varint(v)[1],
        wire::varint(v)[0] >= 128,
        wire::varint(v)[1] < 128,
{
    let q1 = v / 128;
    reveal_with_fuel(wire::continued, 2);
    assert(wire::continued(q1, 1) =~= seq![(128 + q1 % 128) as u8]);
    assert(wire::varint(v) =~= seq![(128 + q1 % 128) as u8, (v % 128) as u8]);
    assert(q1 < 128);
}

proof fn lemma_varint_of_3(v: nat)
    requires
        0x4000 <= v < 0x200000,
        v <= u64::MAX,
    ensures
        wire::varint(v).len() == 3,
        v == (wire::varint(v)[0] - 128) * 0x4000 + (wire::varint(v)[1] - 128) * 0x80 + wire::varint(v)[2],
        wire::varint(v)[0] >= 128,
        wire::varint(v)[1] >= 128,
        wire::varint(v)[2] < 128,
{
    let q1 = v / 128;
    let q2 = q1 / 128;
    reveal_with_fuel(wire::continued, 2);
    assert(wire::continued(q2, 1) =~= seq![(128 + q2 % 128) as u8]);
    assert(wire::continued(q1, 2) =~= seq![(128 + q2 % 128) as u8, (128 + q1 % 128) as u8]);
    assert(wire::varint(v) =~= seq![(128 + q2 % 128) as u8, (128 + q1 % 128) as u8, (v % 128) as u8]);
    assert(q2 < 128);
}

proof fn lemma_varint_of_4(v: nat)
    requires
        0x200000 <= v < 0x10000000,
        v <= u64::MAX,
    ensures
        wire::varint(v).len() == 4,
        v == (wire::varint(v)[0] - 128) * 0x200000 + (wire::varint(v)[1] - 128) * 0x4000 + (wire::varint(v)[2] - 128) * 0x80 + wire::varint(v)[3],
        wire::varint(v)[0] >= 128,
        wire::varint(v)[1] >= 128,
        wire::varint(v)[2] >= 128,
        wire::varint(v)[3] < 128,
{
    let q1 = v / 128;
    let q2 = q1 / 128;
    let q3 = q2 / 128;
    reveal_with_fuel(wire::continued, 2);
    assert(wire::continued(q3, 1) =~= seq![(128 + q3 % 128) as u8]);
    assert(wire::continued(q2, 2) =~= seq![(128 + q3 % 128) as u8, (128 + q2 % 128) as u8]);
    assert(wire::continued(q1, 3) =~= seq![(128 + q3 % 128) as u8, (128 + q2 % 128) as u8, (128 + q1 % 128) as u8]);
    assert(wire::varint(v) =~= seq![(128 + q3 % 128) as u8, (128 + q2 % 128) as u8, (128 + q1 % 128) as u8, (v % 128) as u8]);
    assert(q3 < 128);
}

proof fn lemma_varint_of_5(v: nat)
    requires
        0x10000000 <= v < 0x800000000,
        v <= u64::MAX,
    ensures
        wire::varint(v).len() == 5,
        v == (wire::varint(v)[0] - 128) * 0x10000000 + (wire::varint(v)[1] - 128) * 0x200000 + (wire::varint(v)[2] - 128) * 0x4000 + (wire::varint(v)[3] - 128) * 0x80 + wire::varint(v)[4],
        wire::varint(v)[0] >= 128,
        wire::varint(v)[1] >= 128,
        wire::varint(v)[2] >= 128,
        wire::varint(v)[3] >= 128,
        wire::varint(v)[4] < 128,
{
    let q1 = v / 128;
    let q2 = q1 / 128;
    let q3 = q2 / 128;
    let q4 = q3 / 128;
    reveal_with_fuel(wire::continued, 2);
    assert(wire::continued(q4, 1) =~= seq![(128 + q4 % 128) as u8]);
    assert(wire::continued(q3, 2) =~= seq![(128 + q4 % 128) as u8, (128 + q3 % 128) as u8]);
    assert(wire::continued(q2, 3) =~= seq![(128 + q4 % 128) as u8, (128 + q3 % 128) as u8, (128 + q2 % 128) as u8]);
    assert(wire::continued(q1, 4) =~= seq![(128 + q4 % 128) as u8, (128 + q3 % 128) as u8, (128 + q2 % 128) as u8, (128 + q1 % 128) as u8]);
    assert(wire::varint(v) =~= seq![(128 + q4 % 128) as u8, (128 + q3 % 128) as u8, (128 + q2 % 128) as u8, (128 + q1 % 128) as u8, (v % 128) as u8]);
    assert(q4 < 128);
}

proof fn lemma_varint_of_6(v: nat)
    requires
        0x800000000 <= v < 0x40000000000,
        v <= u64::MAX,
    ensures
        wire::varint(v).len() == 6,
        v == (wire::varint(v)[0] - 128) * 0x800000000 + (wire::varint(v)[1] - 128) * 0x10000000 + (wire::varint(v)[2] - 128) * 0x200000 + (wire::varint(v)[3] - 128) * 0x4000 + (wire::varint(v)[4] - 128) * 0x80 + wire::varint(v)[5],
        wire::varint(v)[0] >= 128,
        wire::varint(v)[1] >= 128,
        wire::varint(v)[2] >= 128,
        wire::varint(v)[3] >= 128,
        wire::varint(v)[4] >= 128,
        wire::varint(v)[5] < 128,
{
    let q1 = v / 128;
    let q2 = q1 / 128;
    let q3 = q2 / 128;
    let q4 = q3 / 128;
    let q5 = q4 / 128;
    reveal_with_fuel(wire::continued, 2);
    assert(wire::continued(q5, 1) =~= seq![(128 + q5 % 128) as u8]);
    assert(wire::continued(q4, 2) =~= seq![(128 + q5 % 128) as u8, (128 + q4 % 128) as u8]);
    assert(wire::continued(q3, 3) =~= seq![(128 + q5 % 128) as u8, (128 + q4 % 128) as u8, (128 + q3 % 128) as u8]);
    assert(wire::continued(q2, 4) =~= seq![(128 + q5 % 128) as u8, (128 + q4 % 128) as u8, (128 + q3 % 128) as u8, (128 + q2 % 128) as u8]);
    assert(wire::continued(q1, 5) =~= seq![(128 + q5 % 128) as u8, (128 + q4 % 128) as u8, (128 + q3 % 128) as u8, (128 + q2 % 128) as u8, (128 + q1 % 128) as u8]);
    assert(wire::varint(v) =~= seq![(128 + q5 % 128) as u8, (128 + q4 % 128) as u8, (128 + q3 % 128) as u8, (128 + q2 % 128) as u8, (128 + q1 % 128) as u8, (v % 128) as u8]);
    assert(q5 < 128);
}

proof fn lemma_varint_of_7(v: nat)
    requires
        0x40000000000 <= v < 0x2000000000000,
        v <= u64::MAX,
    ensures
        wire::varint(v).len() == 7,
        v == (wire::varint(v)[0] - 128) * 0x40000000000 + (wire::varint(v)[1] - 128) * 0x800000000 + (wire::varint(v)[2] - 128) * 0x10000000 + (wire::varint(v)[3] - 128) * 0x200000 + (wire::varint(v)[4] - 128) * 0x4000 + (wire::varint(v)[5] - 128) * 0x80 + wire::varint(v)[6],
        wire::varint(v)[0] >= 128,
        wire::varint(v)[1] >= 128,
        wire::varint(v)[2] >= 128,
        wire::varint(v)[3] >= 128,
        wire::varint(v)[4] >= 128,
        wire::varint(v)[5] >= 128,
        wire::varint(v)[6] < 128,
{
    let q1 = v / 128;
    let q2 = q1 / 128;
    let q3 = q2 / 128;
    let q4 = q3 / 128;
    let q5 = q4 / 128;
    let q6 = q5 / 128;
    reveal_with_fuel(wire::continued, 2);
    assert(wire::continued(q6, 1) =~= seq![(128 + q6 % 128) as u8]);
    assert(wire::continued(q5, 2) =~= seq![(128 + q6 % 128) as u8, (128 + q5 % 128) as u8]);
    assert(wire::continued(q4, 3) =~= seq![(128 + q6 % 128) as u8, (128 + q5 % 128) as u8, (128 + q4 % 128) as u8]);
    assert(wire::continued(q3, 4) =~= seq![(128 + q6 % 128) as u8, (128 + q5 % 128) as u8, (128 + q4 % 128) as u8, (128 + q3 % 128) as u8]);
    assert(wire::continued(q2, 5) =~= seq![(128 + q6 % 128) as u8, (128 + q5 % 128) as u8, (128 + q4 % 128) as u8, (128 + q3 % 128) as u8, (128 + q2 % 128) as u8]);
    assert(wire::continued(q1, 6) =~= seq![(128 + q6 % 128) as u8, (128 + q5 % 128) as u8, (128 + q4 % 128) as u8, (128 + q3 % 128) as u8, (128 + q2 % 128) as u8, (128 + q1 % 128) as u8]);
    assert(wire::varint(v) =~= seq![(128 + q6 % 128) as u8, (128 + q5 % 128) as u8, (128 + q4 % 128) as u8, (128 + q3 % 128) as u8, (128 + q2 % 128) as u8, (128 + q1 % 128) as u8, (v % 128) as u8]);
    assert(q6 < 128);
}

proof fn lemma_varint_of_8(v: nat)
    requires
        0x2000000000000 <= v < 0x100000000000000,
        v <= u64::MAX,
    ensures
        wire::varint(v).len() == 8,
        v == (wire::varint(v)[0] - 128) * 0x2000000000000 + (wire::varint(v)[1] - 128) * 0x40000000000 + (wire::varint(v)[2] - 128) * 0x800000000 + (wire::varint(v)[3] - 128) * 0x10000000 + (wire::varint(v)[4] - 128) * 0x200000 + (wire::varint(v)[5] - 128) * 0x4000 + (wire::varint(v)[6] - 128) * 0x80 + wire::varint(v)[7],
        wire::varint(v)[0] >= 128,
        wire::varint(v)[1] >= 128,
        wire::varint(v)[2] >= 128,
        wire::varint(v)[3] >= 128,
        wire::varint(v)[4] >= 128,
        wire::varint(v)[5] >= 128,
        wire::varint(v)[6] >= 128,
        wire::varint(v)[7] < 128,
{
    let q1 = v / 128;
    let q2 = q1 / 128;
    let q3 = q2 / 128;
    let q4 = q3 / 128;
    let q5 = q4 / 128;
    let q6 = q5 / 128;
    let q7 = q6 / 128;
    reveal_with_fuel(wire::continued, 2);
    assert(wire::continued(q7, 1) =~= seq![(128 + q7 % 128) as u8]);
    assert(wire::continued(q6, 2) =~= seq![(128 + q7 % 128) as u8, (128 + q6 % 128) as u8]);
    assert(wire::continued(q5, 3) =~= seq![(128 + q7 % 128) as u8, (128 + q6 % 128) as u8, (128 + q5 % 128) as u8]);
    assert(wire::continued(q4, 4) =~= seq![(128 + q7 % 128) as u8, (128 + q6 % 128) as u8, (128 + q5 % 128) as u8, (128 + q4 % 128) as u8]);
    assert(wire::continued(q3, 5) =~= seq![(128 + q7 % 128) as u8, (128 + q6 % 128) as u8, (128 + q5 % 128) as u8, (128 + q4 % 128) as u8, (128 + q3 % 128) as u8]);
    assert(wire::continued(q2, 6) =~= seq![(128 + q7 % 128) as u8, (128 + q6 % 128) as u8, (128 + q5 % 128) as u8, (128 + q4 % 128) as u8, (128 + q3 % 128) as u8, (128 + q2 % 128) as u8]);
    assert(wire::continued(q1, 7) =~= seq![(128 + q7 % 128) as u8, (128 + q6 % 128) as u8, (128 + q5 % 128) as u8, (128 + q4 % 128) as u8, (128 + q3 % 128) as u8, (128 + q2 % 128) as u8, (128 + q1 % 128) as u8]);
    assert(wire::varint(v) =~= seq![(128 + q7 % 128) as u8, (128 + q6 % 128) as u8, (128 + q5 % 128) as u8, (128 + q4 % 128) as u8, (128 + q3 % 128) as u8, (128 + q2 % 128) as u8, (128 + q1 % 128) as u8, (v % 128) as u8]);
    assert(q7 < 128);
}

proof fn lemma_varint_of_9(v: nat)
    requires
        v >= 0x100000000000000,
        v <= u64::MAX,
    ensures
        wire::varint(v).len() == 9,
        v == (wire::varint(v)[0] - 128) * 0x200000000000000 + (wire::varint(v)[1] - 128) * 0x4000000000000 + (wire::varint(v)[2] - 128) * 0x80000000000 + (wire::varint(v)[3] - 128) * 0x1000000000 + (wire::varint(v)[4] - 128) * 0x20000000 + (wire::varint(v)[5] - 128) * 0x400000 + (wire::varint(v)[6] - 128) * 0x8000 + (wire::varint(v)[7] - 128) * 0x100 + wire::varint(v)[8],
        wire::varint(v)[0] >= 128,
        wire::varint(v)[1] >= 128,
        wire::varint(v)[2] >= 128,
        wire::varint(v)[3] >= 128,
        wire::varint(v)[4] >= 128,
        wire::varint(v)[5] >= 128,
        wire::varint(v)[6] >= 128,
        wire::varint(v)[7] >= 128,
{
    let q1 = v / 256;
    let q2 = q1 / 128;
    let q3 = q2 / 128;
    let q4 = q3 / 128;
    let q5 = q4 / 128;
    let q6 = q5 / 128;
    let q7 = q6 / 128;
    let q8 = q7 / 128;
    reveal_with_fuel(wire::continued, 2);
    assert(wire::continued(q8, 1) =~= seq![(128 + q8 % 128) as u8]);
    assert(wire::continued(q7, 2) =~= seq![(128 + q8 % 128) as u8, (128 + q7 % 128) as u8]);
    assert(wire::continued(q6, 3) =~= seq![(128 + q8 % 128) as u8, (128 + q7 % 128) as u8, (128 + q6 % 128) as u8]);
    assert(wire::continued(q5, 4) =~= seq![(128 + q8 % 128) as u8, (128 + q7 % 128) as u8, (128 + q6 % 128) as u8, (128 + q5 % 128) as u8]);
    assert(wire::continued(q4, 5) =~= seq![(128 + q8 % 128) as u8, (128 + q7 % 128) as u8, (128 + q6 % 128) as u8, (128 + q5 % 128) as u8, (128 + q4 % 128) as u8]);
    assert(wire::continued(q3, 6) =~= seq![(128 + q8 % 128) as u8, (128 + q7 % 128) as u8, (128 + q6 % 128) as u8, (128 + q5 % 128) as u8, (128 + q4 % 128) as u8, (128 + q3 % 128) as u8]);
    assert(wire::continued(q2, 7) =~= seq![(128 + q8 % 128) as u8, (128 + q7 % 128) as u8, (128 + q6 % 128) as u8, (128 + q5 % 128) as u8, (128 + q4 % 128) as u8, (128 + q3 % 128) as u8, (128 + q2 % 128) as u8]);
    assert(wire::continued(q1, 8) =~= seq![(128 + q8 % 128) as u8, (128 + q7 % 128) as u8, (128 + q6 % 128) as u8, (128 + q5 % 128) as u8, (128 + q4 % 128) as u8, (128 + q3 % 128) as u8, (128 + q2 % 128) as u8, (128 + q1 % 128) as u8]);
    assert(wire::varint(v) =~= seq![(128 + q8 % 128) as u8, (128 + q7 % 128) as u8, (128 + q6 % 128) as u8, (128 + q5 % 128) as u8, (128 + q4 % 128) as u8, (128 + q3 % 128) as u8, (128 + q2 % 128) as u8, (128 + q1 % 128) as u8, (v % 256) as u8]);
    assert(q8 < 128);
}

/// A varint is read up to its first byte without the high bit, or up to its
/// ninth byte, and what follows is left alone. A buffer that ends before that
/// holds none.
pub proof fn varints_are_read_in_groups_of_seven_bits(buf: Seq<u8>)
    ensures
        buf.len() >= 1 && buf[0] < 128 ==> wire::parse_varint(buf) == Some(
            ((buf[0]) as nat, 1nat),
        ),
        buf.len() >= 2 && buf[0] >= 128 && buf[1] < 128 ==> wire::parse_varint(buf) == Some(
            (((buf[0] - 128) * 0x80 + buf[1]) as nat, 2nat),
        ),
        buf.len() >= 3 && buf[0] >= 128 && buf[1] >= 128 && buf[2] < 128 ==> wire::parse_varint(buf) == Some(
            (((buf[0] - 128) * 0x4000 + (buf[1] - 128) * 0x80 + buf[2]) as nat, 3nat),
        ),
        buf.len() >= 4 && buf[0] >= 128 && buf[1] >= 128 && buf[2] >= 128 && buf[3] < 128 ==> wire::parse_varint(buf) == Some(
            (((buf[0] - 128) * 0x200000 + (buf[1] - 128) * 0x4000 + (buf[2] - 128) * 0x80 + buf[3]) as nat, 4nat),
        ),
        buf.len() >= 5 && buf[0] >= 128 && buf[1] >= 128 && buf[2] >= 128 && buf[3] >= 128 && buf[4] < 128 ==> wire::parse_varint(buf) == Some(
            (((buf[0] - 128) * 0x10000000 + (buf[1] - 128) * 0x200000 + (buf[2] - 128) * 0x4000 + (buf[3] - 128) * 0x80 + buf[4]) as nat, 5nat),
        ),
        buf.len() >= 6 && buf[0] >= 128 && buf[1] >= 128 && buf[2] >= 128 && buf[3] >= 128 && buf[4] >= 128 && buf[5] < 128 ==> wire::parse_varint(buf) == Some(
            (((buf[0] - 128) * 0x800000000 + (buf[1] - 128) * 0x10000000 + (buf[2] - 128) * 0x200000 + (buf[3] - 128) * 0x4000 + (buf[4] - 128) * 0x80 + buf[5]) as nat, 6nat),
        ),
        buf.len() >= 7 && buf[0] >= 128 && buf[1] >= 128 && buf[2] >= 128 && buf[3] >= 128 && buf[4] >= 128 && buf[5] >= 128 && buf[6] < 128 ==> wire::parse_varint(buf) == Some(
            (((buf[0] - 128) * 0x40000000000 + (buf[1] - 128) * 0x800000000 + (buf[2] - 128) * 0x10000000 + (buf[3] - 128) * 0x200000 + (buf[4] - 128) * 0x4000 + (buf[5] - 128) * 0x80 + buf[6]) as nat, 7nat),
        ),
        buf.len() >= 8 && buf[0] >= 128 && buf[1] >= 128 && buf[2] >= 128 && buf[3] >= 128 && buf[4] >= 128 && buf[5] >= 128 && buf[6] >= 128 && buf[7] < 128 ==> wire::parse_varint(buf) == Some(
            (((buf[0] - 128) * 0x2000000000000 + (buf[1] - 128) * 0x40000000000 + (buf[2] - 128) * 0x800000000 + (buf[3] - 128) * 0x10000000 + (buf[4] - 128) * 0x200000 + (buf[5] - 128) * 0x4000 + (buf[6] - 128) * 0x80 + buf[7]) as nat, 8nat),
        ),
        buf.len() >= 9 && buf[0] >= 128 && buf[1] >= 128 && buf[2] >= 128 && buf[3] >= 128 && buf[4] >= 128 && buf[5] >= 128 && buf[6] >= 128 && buf[7] >= 128 ==> wire::parse_varint(buf) == Some(
            (((buf[0] - 128) * 0x200000000000000 + (buf[1] - 128) * 0x4000000000000 + (buf[2] - 128) * 0x80000000000 + (buf[3] - 128) * 0x1000000000 + (buf[4] - 128) * 0x20000000 + (buf[5] - 128) * 0x400000 + (buf[6] - 128) * 0x8000 + (buf[7] - 128) * 0x100 + buf[8]) as nat, 9nat),
        ),
        buf.len() < 9 && (forall|i: int| 0 <= i < buf.len() ==> #[trigger] buf[i] >= 128)
            ==> wire::parse_varint(buf) is None,
{
    reveal_with_fuel(wire::parse_varint_from, 10);
}

// ---------------------------------------------------------------------------
// One value
// ---------------------------------------------------------------------------

/// A record of one column whose serial type takes one byte.
proof fn lemma_record_of_one(v: ValueView)
    requires
        wire::serial_of(v) < 128,
    ensures
        wire::record(seq![v]) == seq![2u8, wire::serial_of(v) as u8] + wire::payload_of(v),
{
    reveal_with_fuel(wire::serials, 2);
    reveal_with_fuel(wire::payloads, 2);
    reveal_with_fuel(wire::continued, 1);
    assert(seq![v].drop_first() =~= Seq::empty());
    let s = wire::serial_of(v);
    assert(wire::varint(s) =~= seq![s as u8]);
    assert(wire::serials(seq![v]) =~= seq![s as u8]);
    assert(wire::payloads(seq![v]) =~= wire::payload_of(v));
    assert(wire::varint(2) =~= seq![2u8]);
    assert(wire::record(seq![v]) =~= seq![2u8, s as u8] + wire::payload_of(v));
}

/// An integer is stored in the fewest of 1, 2, 3, 4, 6 and 8 bytes that hold
/// it, under serial types 1 to 6, most significant byte first and in two's
/// complement. 0 and 1 have serial types of their own and take none.
pub proof fn integers_have_their_stored_form(n: i64)
    ensures
        n == 0 ==> wire::record(seq![ValueView::Integer(n)]) == seq![2u8, 8u8],
        n == 1 ==> wire::record(seq![ValueView::Integer(n)]) == seq![2u8, 9u8],
        -0x80 <= n < 0x80 && n != 0 && n != 1 ==> ({
            let r = wire::record(seq![ValueView::Integer(n)]);
            &&& r.len() == 3
            &&& r[0] == 2 && r[1] == 1
            &&& r[2] == n + (if n < 0 {
                0x100int
            } else {
                0
            })
        }),
        -0x8000 <= n < 0x8000 && !(-0x80 <= n < 0x80) ==> ({
            let r = wire::record(seq![ValueView::Integer(n)]);
            &&& r.len() == 4
            &&& r[0] == 2 && r[1] == 2
            &&& r[2] * 0x100 + r[3] == n + (if n < 0 {
                0x10000int
            } else {
                0
            })
        }),
        -0x800000 <= n < 0x800000 && !(-0x8000 <= n < 0x8000) ==> ({
            let r = wire::record(seq![ValueView::Integer(n)]);
            &&& r.len() == 5
            &&& r[0] == 2 && r[1] == 3
            &&& r[2] * 0x10000 + r[3] * 0x100 + r[4] == n + (if n < 0 {
                0x1000000int
            } else {
                0
            })
        }),
        -0x80000000 <= n < 0x80000000 && !(-0x800000 <= n < 0x800000) ==> ({
            let r = wire::record(seq![ValueView::Integer(n)]);
            &&& r.len() == 6
            &&& r[0] == 2 && r[1] == 4
            &&& r[2] * 0x1000000 + r[3] * 0x10000 + r[4] * 0x100 + r[5] == n + (if n < 0 {
                0x100000000int
            } else {
                0
            })
        }),
        -0x800000000000 <= n < 0x800000000000 && !(-0x80000000 <= n < 0x80000000) ==> ({
            let r = wire::record(seq![ValueView::Integer(n)]);
            &&& r.len() == 8
            &&& r[0] == 2 && r[1] == 5
            &&& r[2] * 0x10000000000 + r[3] * 0x100000000 + r[4] * 0x1000000 + r[5] * 0x10000 + r[6] * 0x100 + r[7] == n + (if n < 0 {
                0x1000000000000int
            } else {
                0
            })
        }),
        !(-0x800000000000 <= n < 0x800000000000) ==> ({
            let r = wire::record(seq![ValueView::Integer(n)]);
            &&& r.len() == 10
            &&& r[0] == 2 && r[1] == 6
            &&& r[2] * 0x100000000000000 + r[3] * 0x1000000000000 + r[4] * 0x10000000000 + r[5] * 0x100000000 + r[6] * 0x1000000 + r[7] * 0x10000 + r[8] * 0x100 + r[9] == n + (if n < 0 {
                0x10000000000000000int
            } else {
                0
            })
        }),
{
    let v = ValueView::Integer(n);
    lemma_record_of_one(v);
    reveal_with_fuel(wire::be_bytes, 9);
    let r = wire::record(seq![v]);
    let p = wire::payload_of(v);
    assert(forall|i: int| 0 <= i < p.len() ==> r[2 + i] == #[trigger] p[i]);
    if n == 0 {
        assert(r =~= seq![2u8, 8u8]);
    } else if n == 1 {
        assert(r =~= seq![2u8, 9u8]);
    }
}

/// What a record of one column is read as.
spec fn one_column(read: Result<(ValueView, nat), WireErrorView>) -> Result<
    Seq<ValueView>,
    WireErrorView,
> {
    match read {
        Ok((v, _)) => Ok(seq![v]),
        Err(e) => Err(e),
    }
}

proof fn lemma_reads_one(serial: u8, payload: Seq<u8>)
    requires
        serial < 128,
        wire::parse_value(serial as u64, payload) matches Ok((_, n)) ==> n <= payload.len(),
    ensures
        wire::parse_record(seq![2u8, serial] + payload) == one_column(
            wire::parse_value(serial as u64, payload),
        ),
{
    let buf = seq![2u8, serial] + payload;
    reveal_with_fuel(wire::parse_varint_from, 2);
    reveal_with_fuel(wire::parse_columns, 3);
    assert(buf[0] == 2);
    assert(wire::parse_varint(buf) == Some((2nat, 1nat)));
    let header = buf.subrange(1, 2);
    assert(header =~= seq![serial]);
    assert(buf.skip(2) =~= payload);
    assert(header[0] == serial);
    assert(wire::parse_varint(header) == Some((serial as nat, 1nat)));
    assert(header.skip(1) =~= Seq::empty());
    if let Ok((v, n)) = wire::parse_value(serial as u64, payload) {
        assert(wire::parse_columns(header.skip(1), payload.skip(n as int)) == Ok::<
            Seq<ValueView>,
            WireErrorView,
        >(Seq::empty()));
        assert(seq![v] + Seq::<ValueView>::empty() =~= seq![v]);
    }
}

pub(crate) proof fn lemma_value_of(bytes: Seq<u8>)
    requires
        bytes.len() <= 8,
    ensures
        bytes.len() == 1 ==> wire::unsigned_be(bytes) == bytes[0],
        bytes.len() == 2 ==> wire::unsigned_be(bytes) == bytes[0] * 0x100 + bytes[1],
        bytes.len() == 3 ==> wire::unsigned_be(bytes) == bytes[0] * 0x10000 + bytes[1] * 0x100 + bytes[2],
        bytes.len() == 4 ==> wire::unsigned_be(bytes) == bytes[0] * 0x1000000 + bytes[1] * 0x10000 + bytes[2] * 0x100 + bytes[3],
        bytes.len() == 6 ==> wire::unsigned_be(bytes) == bytes[0] * 0x10000000000 + bytes[1] * 0x100000000 + bytes[2] * 0x1000000 + bytes[3] * 0x10000 + bytes[4] * 0x100 + bytes[5],
        bytes.len() == 8 ==> wire::unsigned_be(bytes) == bytes[0] * 0x100000000000000 + bytes[1] * 0x1000000000000 + bytes[2] * 0x10000000000 + bytes[3] * 0x100000000 + bytes[4] * 0x1000000 + bytes[5] * 0x10000 + bytes[6] * 0x100 + bytes[7],
{
    reveal_with_fuel(wire::unsigned_be, 9);
    let b1 = bytes.drop_last();
    let b2 = b1.drop_last();
    let b3 = b2.drop_last();
    let b4 = b3.drop_last();
    let b5 = b4.drop_last();
    let b6 = b5.drop_last();
    let b7 = b6.drop_last();
}

/// Serial types 1 to 6 are integers of 1, 2, 3, 4, 6 and 8 bytes, most
/// significant byte first and in two's complement; 8 and 9 are 0 and 1, and 0
/// is NULL. What follows the payload is left alone, and a payload that is too
/// short is an error.
pub proof fn integers_are_read_from_their_stored_form(p: Seq<u8>)
    ensures
        wire::parse_record(seq![2u8, 0u8] + p) == Ok::<_, WireErrorView>(seq![ValueView::Null]),
        wire::parse_record(seq![2u8, 8u8] + p) == Ok::<_, WireErrorView>(
            seq![ValueView::Integer(0)],
        ),
        wire::parse_record(seq![2u8, 9u8] + p) == Ok::<_, WireErrorView>(
            seq![ValueView::Integer(1)],
        ),
        p.len() >= 1 ==> wire::parse_record(seq![2u8, 1u8] + p) == Ok::<_, WireErrorView>(
            seq![
                ValueView::Integer(
                    (p[0] - (if p[0] < 128 {
                        0int
                    } else {
                        0x100
                    })) as i64,
                ),
            ],
        ),
        p.len() < 1 ==> wire::parse_record(seq![2u8, 1u8] + p) == Err::<Seq<ValueView>, _>(
            WireErrorView::UnexpectedEof,
        ),
        p.len() >= 2 ==> wire::parse_record(seq![2u8, 2u8] + p) == Ok::<_, WireErrorView>(
            seq![
                ValueView::Integer(
                    (p[0] * 0x100 + p[1] - (if p[0] < 128 {
                        0int
                    } else {
                        0x10000
                    })) as i64,
                ),
            ],
        ),
        p.len() < 2 ==> wire::parse_record(seq![2u8, 2u8] + p) == Err::<Seq<ValueView>, _>(
            WireErrorView::UnexpectedEof,
        ),
        p.len() >= 3 ==> wire::parse_record(seq![2u8, 3u8] + p) == Ok::<_, WireErrorView>(
            seq![
                ValueView::Integer(
                    (p[0] * 0x10000 + p[1] * 0x100 + p[2] - (if p[0] < 128 {
                        0int
                    } else {
                        0x1000000
                    })) as i64,
                ),
            ],
        ),
        p.len() < 3 ==> wire::parse_record(seq![2u8, 3u8] + p) == Err::<Seq<ValueView>, _>(
            WireErrorView::UnexpectedEof,
        ),
        p.len() >= 4 ==> wire::parse_record(seq![2u8, 4u8] + p) == Ok::<_, WireErrorView>(
            seq![
                ValueView::Integer(
                    (p[0] * 0x1000000 + p[1] * 0x10000 + p[2] * 0x100 + p[3] - (if p[0] < 128 {
                        0int
                    } else {
                        0x100000000
                    })) as i64,
                ),
            ],
        ),
        p.len() < 4 ==> wire::parse_record(seq![2u8, 4u8] + p) == Err::<Seq<ValueView>, _>(
            WireErrorView::UnexpectedEof,
        ),
        p.len() >= 6 ==> wire::parse_record(seq![2u8, 5u8] + p) == Ok::<_, WireErrorView>(
            seq![
                ValueView::Integer(
                    (p[0] * 0x10000000000 + p[1] * 0x100000000 + p[2] * 0x1000000 + p[3] * 0x10000 + p[4] * 0x100 + p[5] - (if p[0] < 128 {
                        0int
                    } else {
                        0x1000000000000
                    })) as i64,
                ),
            ],
        ),
        p.len() < 6 ==> wire::parse_record(seq![2u8, 5u8] + p) == Err::<Seq<ValueView>, _>(
            WireErrorView::UnexpectedEof,
        ),
        p.len() >= 8 ==> wire::parse_record(seq![2u8, 6u8] + p) == Ok::<_, WireErrorView>(
            seq![
                ValueView::Integer(
                    (p[0] * 0x100000000000000 + p[1] * 0x1000000000000 + p[2] * 0x10000000000 + p[3] * 0x100000000 + p[4] * 0x1000000 + p[5] * 0x10000 + p[6] * 0x100 + p[7] - (if p[0] < 128 {
                        0int
                    } else {
                        0x10000000000000000
                    })) as i64,
                ),
            ],
        ),
        p.len() < 8 ==> wire::parse_record(seq![2u8, 6u8] + p) == Err::<Seq<ValueView>, _>(
            WireErrorView::UnexpectedEof,
        ),
{
    wire::lemma_pow256();
    lemma_reads_one(0, p);
    lemma_reads_one(8, p);
    lemma_reads_one(9, p);
    lemma_reads_one(1, p);
    if p.len() >= 1 {
        lemma_value_of(p.take(1));
        assert(forall|i: int| 0 <= i < 1 ==> p.take(1)[i] == #[trigger] p[i]);
    }
    lemma_reads_one(2, p);
    if p.len() >= 2 {
        lemma_value_of(p.take(2));
        assert(forall|i: int| 0 <= i < 2 ==> p.take(2)[i] == #[trigger] p[i]);
    }
    lemma_reads_one(3, p);
    if p.len() >= 3 {
        lemma_value_of(p.take(3));
        assert(forall|i: int| 0 <= i < 3 ==> p.take(3)[i] == #[trigger] p[i]);
    }
    lemma_reads_one(4, p);
    if p.len() >= 4 {
        lemma_value_of(p.take(4));
        assert(forall|i: int| 0 <= i < 4 ==> p.take(4)[i] == #[trigger] p[i]);
    }
    lemma_reads_one(5, p);
    if p.len() >= 6 {
        lemma_value_of(p.take(6));
        assert(forall|i: int| 0 <= i < 6 ==> p.take(6)[i] == #[trigger] p[i]);
    }
    lemma_reads_one(6, p);
    if p.len() >= 8 {
        lemma_value_of(p.take(8));
        assert(forall|i: int| 0 <= i < 8 ==> p.take(8)[i] == #[trigger] p[i]);
    }
}

/// A float is stored as its eight bytes, most significant first, under serial
/// type 7, and read back from them. A NaN is stored as NULL.
pub proof fn floats_have_their_stored_form(bits: u64, p: Seq<u8>)
    ensures
        value::is_nan(bits) ==> wire::record(seq![ValueView::Real(bits)]) == seq![2u8, 0u8],
        !value::is_nan(bits) ==> ({
            let r = wire::record(seq![ValueView::Real(bits)]);
            &&& r.len() == 10
            &&& r[0] == 2 && r[1] == 7
            &&& bits == r[2] * 0x100000000000000 + r[3] * 0x1000000000000 + r[4] * 0x10000000000 + r[5] * 0x100000000 + r[6] * 0x1000000 + r[7] * 0x10000 + r[8] * 0x100 + r[9]
        }),
        p.len() >= 8 ==> wire::parse_record(seq![2u8, 7u8] + p) == Ok::<_, WireErrorView>(
            seq![ValueView::Real((p[0] * 0x100000000000000 + p[1] * 0x1000000000000 + p[2] * 0x10000000000 + p[3] * 0x100000000 + p[4] * 0x1000000 + p[5] * 0x10000 + p[6] * 0x100 + p[7]) as u64)],
        ),
        p.len() < 8 ==> wire::parse_record(seq![2u8, 7u8] + p) == Err::<Seq<ValueView>, _>(
            WireErrorView::UnexpectedEof,
        ),
{
    let v = ValueView::Real(bits);
    lemma_record_of_one(v);
    reveal_with_fuel(wire::be_bytes, 9);
    let r = wire::record(seq![v]);
    let q = wire::payload_of(v);
    assert(forall|i: int| 0 <= i < q.len() ==> r[2 + i] == #[trigger] q[i]);
    if value::is_nan(bits) {
        assert(r =~= seq![2u8, 0u8]);
    }
    lemma_reads_one(7, p);
    if p.len() >= 8 {
        lemma_value_of(p.take(8));
        assert(forall|i: int| 0 <= i < 8 ==> p.take(8)[i] == #[trigger] p[i]);
    }
}

/// A bit pattern is a NaN exactly where its eleven exponent bits are all set
/// and its fraction is not zero.
pub proof fn nans_have_a_full_exponent_and_a_fraction(bits: u64)
    ensures
        value::is_nan(bits) <==> (bits >> 52) & 0x7ff == 0x7ff && bits & 0xf_ffff_ffff_ffff != 0,
{
    assert((0x7ff0_0000_0000_0000 < bits && bits < 0x8000_0000_0000_0000) || bits
        > 0xfff0_0000_0000_0000 <==> (bits >> 52) & 0x7ff == 0x7ff && bits & 0xf_ffff_ffff_ffff
        != 0) by (bit_vector);
}

/// NULL is serial type 0. A blob of `n` bytes is serial type `12 + 2n` and a
/// text of `n` bytes `13 + 2n`, followed by those bytes as they are.
pub proof fn texts_and_blobs_have_their_stored_form(s: Seq<char>, b: Seq<u8>)
    requires
        encode_utf8(s).len() <= 0x3fff_ffff_ffff_ffff,
        b.len() <= 0x3fff_ffff_ffff_ffff,
    ensures
        wire::record(seq![ValueView::Null]) == seq![2u8, 0u8],
        wire::record(seq![ValueView::Blob(b)]) == ({
            let serial = wire::varint(12 + 2 * b.len());
            seq![(1 + serial.len()) as u8] + serial + b
        }),
        wire::record(seq![ValueView::Text(s)]) == ({
            let serial = wire::varint(13 + 2 * encode_utf8(s).len());
            seq![(1 + serial.len()) as u8] + serial + encode_utf8(s)
        }),
{
    lemma_record_of_one(ValueView::Null);
    assert(wire::record(seq![ValueView::Null]) =~= seq![2u8, 0u8]);
    lemma_record_of_column(ValueView::Blob(b));
    lemma_record_of_column(ValueView::Text(s));
}

proof fn lemma_record_of_column(v: ValueView)
    requires
        wire::serial_of(v) <= u64::MAX,
    ensures
        wire::record(seq![v]) == ({
            let serial = wire::varint(wire::serial_of(v));
            seq![(1 + serial.len()) as u8] + serial + wire::payload_of(v)
        }),
{
    reveal_with_fuel(wire::serials, 2);
    reveal_with_fuel(wire::payloads, 2);
    reveal_with_fuel(wire::continued, 1);
    let serial = wire::varint(wire::serial_of(v));
    wire::varint_has_its_width(wire::serial_of(v));
    assert(seq![v].drop_first() =~= Seq::empty());
    assert(wire::serials(seq![v]) =~= serial);
    assert(wire::payloads(seq![v]) =~= wire::payload_of(v));
    let n = serial.len();
    assert(wire::varint(n + 1) =~= seq![(1 + n) as u8]);
}

/// An even serial type from 12 on is a blob and an odd one from 13 on a text,
/// of half the rest in bytes. A text has to be UTF-8, and the payload has to
/// be there. Serial types 10 and 11 stand for nothing.
pub proof fn texts_and_blobs_are_read_from_their_stored_form(n: nat, p: Seq<u8>)
    requires
        n <= 57,
    ensures
        p.len() >= n ==> wire::parse_record(seq![2u8, (12 + 2 * n) as u8] + p) == Ok::<
            _,
            WireErrorView,
        >(seq![ValueView::Blob(p.take(n as int))]),
        p.len() >= n ==> wire::parse_record(seq![2u8, (13 + 2 * n) as u8] + p) == (
        if valid_utf8(p.take(n as int)) {
            Ok(seq![ValueView::Text(decode_utf8(p.take(n as int)))])
        } else {
            Err(WireErrorView::InvalidUtf8(p.take(n as int)))
        }),
        p.len() < n ==> wire::parse_record(seq![2u8, (12 + 2 * n) as u8] + p) == Err::<
            Seq<ValueView>,
            _,
        >(WireErrorView::UnexpectedEof),
        p.len() < n ==> wire::parse_record(seq![2u8, (13 + 2 * n) as u8] + p) == Err::<
            Seq<ValueView>,
            _,
        >(WireErrorView::UnexpectedEof),
        wire::parse_record(seq![2u8, 10u8] + p) == Err::<Seq<ValueView>, _>(
            WireErrorView::ReservedSerialType(10),
        ),
        wire::parse_record(seq![2u8, 11u8] + p) == Err::<Seq<ValueView>, _>(
            WireErrorView::ReservedSerialType(11),
        ),
{
    lemma_reads_one((12 + 2 * n) as u8, p);
    lemma_reads_one((13 + 2 * n) as u8, p);
    lemma_reads_one(10, p);
    lemma_reads_one(11, p);
}

// ---------------------------------------------------------------------------
// Several values, and the frame of a UNION
// ---------------------------------------------------------------------------

/// A column more puts one serial type at the end of the header and one payload
/// at the end of the record, and makes the header's own size, which counts
/// itself, one more. This is said of headers below 126 bytes and serial types
/// of one byte.
pub proof fn a_column_more_is_one_at_each_end(
    values: Seq<ValueView>,
    v: ValueView,
    header: Seq<u8>,
    body: Seq<u8>,
    serial: u8,
    payload: Seq<u8>,
)
    requires
        header.len() < 126,
        wire::record(values) == seq![(1 + header.len()) as u8] + header + body,
        wire::record(seq![v]) == seq![2u8, serial] + payload,
    ensures
        wire::record(values.push(v)) == seq![(2 + header.len()) as u8] + header.push(serial) + (body
            + payload),
{
    reveal_with_fuel(wire::continued, 1);
    lemma_header(values, header, body);
    assert(seq![2u8, serial] + payload =~= seq![2u8] + seq![serial] + payload);
    lemma_header(seq![v], seq![serial], payload);
    lemma_serials_push(values, v);
    lemma_serials_push(Seq::empty(), v);
    assert(Seq::<ValueView>::empty().push(v) =~= seq![v]);
    let one = wire::varint(wire::serial_of(v));
    assert(Seq::<u8>::empty() + one =~= one);
    assert(Seq::<u8>::empty() + wire::payload_of(v) =~= wire::payload_of(v));
    assert(wire::serials(values.push(v)) =~= header.push(serial));
    assert(wire::payloads(values.push(v)) =~= body + payload);
    let m = header.len() + 1;
    assert(wire::varint(m + 1) =~= seq![(m + 1) as u8]);
}

/// The header and the body of a record can be told by the size in front.
proof fn lemma_header(values: Seq<ValueView>, header: Seq<u8>, body: Seq<u8>)
    requires
        header.len() < 127,
        wire::record(values) == seq![(1 + header.len()) as u8] + header + body,
    ensures
        wire::serials(values) == header,
        wire::payloads(values) == body,
{
    reveal_with_fuel(wire::continued, 1);
    let r = wire::record(values);
    let n = wire::serials(values).len();
    let size = n + wire::size_width(n);
    let first = wire::varint(size);
    wire::varint_has_its_width(size);
    assert(r[0] == first[0]);
    lemma_first_byte(size);
    assert(size < 128);
    assert(first =~= seq![size as u8]);
    assert(n == header.len());
    assert(wire::serials(values) =~= r.subrange(1, 1 + n as int));
    assert(header =~= r.subrange(1, 1 + n as int));
    assert(wire::payloads(values) =~= r.skip(1 + n as int));
    assert(body =~= r.skip(1 + n as int));
}

/// The first byte of a varint of several bytes has its high bit set.
proof fn lemma_first_byte(v: nat)
    ensures
        v >= 128 ==> wire::varint(v)[0] >= 128,
        v < 128 ==> wire::varint(v)[0] == v,
{
    reveal_with_fuel(wire::continued, 1);
    wire::varint_has_its_width(v);
    if v >= 128 {
        let (u, k): (nat, nat) = if v <= 0x00ff_ffff_ffff_ffff {
            (v / 128, (wire::varint_width(v) - 1) as nat)
        } else {
            (v / 256, 8)
        };
        lemma_continued_first(u, k);
    }
}

proof fn lemma_continued_first(v: nat, n: nat)
    ensures
        wire::continued(v, n).len() == n,
        n > 0 ==> wire::continued(v, n)[0] >= 128,
    decreases n,
{
    if n > 0 {
        lemma_continued_first(v / 128, (n - 1) as nat);
    }
}

proof fn lemma_serials_push(values: Seq<ValueView>, v: ValueView)
    ensures
        wire::serials(values.push(v)) == wire::serials(values) + wire::varint(wire::serial_of(v)),
        wire::payloads(values.push(v)) == wire::payloads(values) + wire::payload_of(v),
    decreases values.len(),
{
    reveal_with_fuel(wire::serials, 2);
    reveal_with_fuel(wire::payloads, 2);
    if values.len() == 0 {
        assert(values.push(v).drop_first() =~= Seq::empty());
        assert(wire::serials(values.push(v)) =~= wire::serials(values) + wire::varint(
            wire::serial_of(v),
        ));
        assert(wire::payloads(values.push(v)) =~= wire::payloads(values) + wire::payload_of(v));
    } else {
        let rest = values.drop_first();
        lemma_serials_push(rest, v);
        assert(values.push(v).drop_first() =~= rest.push(v));
        assert(wire::serials(values.push(v)) =~= wire::serials(values) + wire::varint(
            wire::serial_of(v),
        ));
        assert(wire::payloads(values.push(v)) =~= wire::payloads(values) + wire::payload_of(v));
    }
}

/// The size in front of a record's header counts the header and itself, in the
/// fewest bytes that can spell it, and the payloads begin where it says.
pub proof fn the_header_counts_itself(values: Seq<ValueView>)
    requires
        wire::recordable(values),
    ensures
        wire::parse_varint(wire::record(values)) matches Some((size, used)) && {
            &&& used == wire::varint(size).len()
            &&& size == used + wire::serials(values).len()
            &&& wire::record(values).subrange(used as int, size as int) == wire::serials(values)
            &&& wire::record(values).skip(size as int) == wire::payloads(values)
            &&& forall|fewer: nat|
                1 <= fewer < used ==> #[trigger] wire::varint(
                    fewer + wire::serials(values).len(),
                ).len() > fewer
        },
{
    let n = wire::serials(values).len();
    let w = wire::size_width(n);
    lemma_serials_bound(values);
    assert(wire::varint_width(n + w) == w);
    wire::varint_has_its_width(n + w);
    let rest = wire::serials(values) + wire::payloads(values);
    wire::varint_reads_back(n + w, rest);
    let r = wire::record(values);
    assert(r =~= wire::varint(n + w) + rest);
    assert(r.subrange(w as int, (n + w) as int) =~= wire::serials(values));
    assert(r.skip((n + w) as int) =~= wire::payloads(values));
    assert forall|fewer: nat| 1 <= fewer < w implies #[trigger] wire::varint(fewer + n).len()
        > fewer by {
        wire::varint_has_its_width(fewer + n);
    }
}

proof fn lemma_serials_bound(values: Seq<ValueView>)
    ensures
        wire::serials(values).len() <= 9 * values.len(),
    decreases values.len(),
{
    if values.len() > 0 {
        wire::varint_has_its_width(wire::serial_of(values[0]));
        lemma_serials_bound(values.drop_first());
    }
}

/// A record whose header would end behind the buffer, or before its own size
/// does, is none.
pub proof fn headers_stay_inside_the_record(buf: Seq<u8>)
    requires
        buf.len() > 0,
        buf[0] < 128,
        buf[0] == 0 || buf[0] > buf.len(),
    ensures
        wire::parse_record(buf) == Err::<Seq<ValueView>, _>(WireErrorView::UnexpectedEof),
{
    reveal_with_fuel(wire::parse_varint_from, 2);
}

/// A UNION value is its tag and the record of its one column. A record of
/// another number of columns behind the tag is an error, and so is nothing at
/// all.
pub proof fn a_union_is_a_tag_and_one_column(tag: u8, v: ValueView, values: Seq<ValueView>)
    requires
        wire::recordable(values),
    ensures
        wire::union_blob(tag, v)[0] == tag,
        wire::union_blob(tag, v).skip(1) == wire::record(seq![v]),
        values.len() != 1 ==> wire::parse_union(seq![tag] + wire::record(values)) == Err::<
            (u8, ValueView),
            _,
        >(WireErrorView::UnexpectedOuterColumnCount(values.len())),
        wire::parse_union(Seq::empty()) == Err::<(u8, ValueView), _>(WireErrorView::UnexpectedEof),
{
    assert(wire::union_blob(tag, v).skip(1) =~= wire::record(seq![v]));
    wire::record_reads_back(values);
    assert((seq![tag] + wire::record(values)).skip(1) =~= wire::record(values));
}

} // verus!
