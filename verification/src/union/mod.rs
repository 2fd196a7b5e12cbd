//! UNION and composite columns: their wire format and what surrounds it.
//!
//! The order of an enum's variants and of a struct's fields is the order of
//! the declaration, and a record carries nothing but storage classes. A
//! mismatch is not noticed when a row is read, so [`ddl`] compares the two.

pub mod ddl;
pub mod ddl_forms;
pub mod ddl_laws;
pub mod declaring;
pub mod display;
pub mod expr;
pub mod field_type;
pub mod schema;
pub mod wire;
pub mod wire_laws;
