//! The SQL types that values are written and read as.

use std::marker::PhantomData;

use vstd::prelude::*;

verus! {

/// A 16-bit integer.
#[derive(Debug, Clone, Copy)]
pub struct SmallInt;

/// A 32-bit integer.
#[derive(Debug, Clone, Copy)]
pub struct Integer;

/// A 64-bit integer.
#[derive(Debug, Clone, Copy)]
pub struct BigInt;

/// A 32-bit float.
#[derive(Debug, Clone, Copy)]
pub struct Float;

/// A 64-bit float.
#[derive(Debug, Clone, Copy)]
pub struct Double;

/// A text.
#[derive(Debug, Clone, Copy)]
pub struct Text;

/// A byte string. A UUID is one of sixteen bytes.
#[derive(Debug, Clone, Copy)]
pub struct Binary;

/// A calendar date.
#[derive(Debug, Clone, Copy)]
pub struct Date;

/// A time of day.
#[derive(Debug, Clone, Copy)]
pub struct Time;

/// A date and a time of day.
#[derive(Debug, Clone, Copy)]
pub struct Timestamp;

/// A date and a time of day with a UTC offset.
#[derive(Debug, Clone, Copy)]
pub struct Timestamptz;

/// A truth value.
#[derive(Debug, Clone, Copy)]
pub struct Bool;

/// A value of type `ST`, or NULL.
#[derive(Debug)]
pub struct Nullable<ST>(PhantomData<ST>);

/// A UNION value whose Rust type is `E`.
#[derive(Debug)]
pub struct TaggedUnion<E>(PhantomData<E>);

/// A SQL type that has a nullable form.
pub trait IntoNullable {
    /// The nullable form.
    type Nullable;
}

impl<ST> IntoNullable for Nullable<ST> {
    type Nullable = Nullable<ST>;
}

impl<E> IntoNullable for TaggedUnion<E> {
    type Nullable = Nullable<TaggedUnion<E>>;
}

impl IntoNullable for SmallInt {
    type Nullable = Nullable<SmallInt>;
}

impl IntoNullable for Integer {
    type Nullable = Nullable<Integer>;
}

impl IntoNullable for BigInt {
    type Nullable = Nullable<BigInt>;
}

impl IntoNullable for Float {
    type Nullable = Nullable<Float>;
}

impl IntoNullable for Double {
    type Nullable = Nullable<Double>;
}

impl IntoNullable for Text {
    type Nullable = Nullable<Text>;
}

impl IntoNullable for Binary {
    type Nullable = Nullable<Binary>;
}

impl IntoNullable for Date {
    type Nullable = Nullable<Date>;
}

impl IntoNullable for Time {
    type Nullable = Nullable<Time>;
}

impl IntoNullable for Timestamp {
    type Nullable = Nullable<Timestamp>;
}

impl IntoNullable for Timestamptz {
    type Nullable = Nullable<Timestamptz>;
}

impl IntoNullable for Bool {
    type Nullable = Nullable<Bool>;
}

/// A UUID, which travels as its sixteen bytes.
pub type Uuid = Binary;

} // verus!
