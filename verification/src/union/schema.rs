//! The layout of a UNION type, as a Rust enum describes it.
//!
//! One value follows the tag on the wire: that of a scalar variant itself, or
//! a blob that holds the record of a struct variant's fields.

use vstd::prelude::*;
use vstd::std_specs::convert::FromSpecImpl;

use crate::backend;
use crate::error::{WriteError, WriteErrorView};
use crate::serialize;
use crate::union::ddl;
use crate::union::ddl::TypeDeclView;
use crate::union::display;
use crate::union::display::{render_layout, Piece};
use crate::union::wire::WireError;
use crate::value;
use crate::value::{Value, ValueView};

verus! {

/// What an encoding comes to.
pub type EncodeResult<T> = Result<T, WriteError>;

/// The storage class of a value, for error messages.
#[derive(Debug, Clone, Copy, PartialEq, Eq, Structural)]
pub enum ValueKind {
    Null,
    Integer,
    Real,
    Text,
    Blob,
}

/// The storage class of a value.
pub open spec fn kind_of(v: ValueView) -> ValueKind {
    match v {
        ValueView::Null => ValueKind::Null,
        ValueView::Integer(_) => ValueKind::Integer,
        ValueView::Real(_) => ValueKind::Real,
        ValueView::Text(_) => ValueKind::Text,
        ValueView::Blob(_) => ValueKind::Blob,
    }
}

/// The name of a storage class.
pub open spec fn kind_name(kind: ValueKind) -> Seq<char> {
    match kind {
        ValueKind::Null => "NULL"@,
        ValueKind::Integer => "INTEGER"@,
        ValueKind::Real => "REAL"@,
        ValueKind::Text => "TEXT"@,
        ValueKind::Blob => "BLOB"@,
    }
}

impl ValueKind {
    /// The storage class of a value.
    pub fn of(v: &Value) -> (kind: ValueKind)
        ensures
            kind == kind_of(v@),
    {
        match v {
            Value::Null => ValueKind::Null,
            Value::Integer(_) => ValueKind::Integer,
            Value::Real(_) => ValueKind::Real,
            Value::Text(_) => ValueKind::Text,
            Value::Blob(_) => ValueKind::Blob,
        }
    }

    /// Its name.
    pub fn as_str(&self) -> (name: &'static str)
        ensures
            name@ == kind_name(*self),
    {
        match self {
            ValueKind::Null => "NULL",
            ValueKind::Integer => "INTEGER",
            ValueKind::Real => "REAL",
            ValueKind::Text => "TEXT",
            ValueKind::Blob => "BLOB",
        }
    }
}

/// Why a UNION value could not be read.
#[allow(inconsistent_fields)]
#[derive(Debug)]
pub enum DecodeError {
    /// The bytes are no UNION value.
    Wire(WireError),
    /// The tag names no variant of the enum.
    UnknownVariant { index: u8, expected: &'static [&'static str] },
    /// The record of a struct variant has another number of fields.
    FieldCount { variant: &'static str, expected: usize, got: usize },
    /// A field is of another storage class than its type.
    TypeMismatch { expected: &'static str, got_kind: ValueKind },
    /// A field could not be read, for this reason.
    Field { variant: &'static str, field: &'static str, message: String },
    /// An integer does not fit in its type.
    IntOutOfRange { value: i64, target: &'static str },
    /// The bytes of a text, which were not UTF-8.
    Utf8(Vec<u8>),
    /// The value was refused, for this reason.
    Custom(String),
}

impl From<WireError> for DecodeError {
    fn from(e: WireError) -> (error: Self) {
        DecodeError::Wire(e)
    }
}

impl FromSpecImpl<WireError> for DecodeError {
    open spec fn obeys_from_spec() -> bool {
        true
    }

    open spec fn from_spec(e: WireError) -> DecodeError {
        DecodeError::Wire(e)
    }
}

/// Names as characters.
pub open spec fn texts(names: Seq<&str>) -> Seq<Seq<char>> {
    Seq::new(names.len(), |i: int| names[i]@)
}

/// The names of the fields of each variant, as characters.
pub open spec fn field_texts(fields: Seq<&[&str]>) -> Seq<Seq<Seq<char>>> {
    Seq::new(fields.len(), |i: int| texts(fields[i]@))
}

/// The name of the variant with this tag, where there is one.
pub open spec fn tag_name(tags: Seq<Seq<char>>, index: u8) -> Seq<char> {
    if index < tags.len() {
        tags[index as int]
    } else {
        "<out-of-range>"@
    }
}

/// The layout of a UNION type: the names of its variants, and of each
/// variant's fields, in the order of the declaration. A scalar variant has no
/// fields.
#[verifier::ext_equal]
pub struct Layout {
    pub tags: Seq<Seq<char>>,
    pub fields: Seq<Seq<Seq<char>>>,
}

/// What the fields of a payload are written as, in the order of the
/// declaration.
#[verifier::ext_equal]
pub struct ColumnsView {
    pub values: Seq<ValueView>,
}

/// The name of a UNION type.
#[verifier::ext_equal]
pub struct NameView {
    pub text: Seq<char>,
}

/// Whether a declaration spells a name: as it is, or in the double quotes that
/// the engine puts round a keyword.
pub open spec fn spells(spelled: Seq<char>, name: Seq<char>) -> bool {
    spelled == name || spelled == backend::quoted(name)
}

/// Whether the members of a declaration have these names, in this order.
pub open spec fn has_members(decl: TypeDeclView, names: Seq<Seq<char>>) -> bool {
    &&& decl.members.len() == names.len()
    &&& forall|i: int|
        0 <= i < names.len() ==> spells((#[trigger] decl.members[i]).0, names[i])
}

/// Whether `decls` declares a UNION type of this name and layout: first a
/// STRUCT for each payload, once, and behind them the UNION, with its variants
/// in the order of their tags. The member of a variant with fields is of the
/// STRUCT that has them.
pub open spec fn declares(decls: Seq<TypeDeclView>, name: Seq<char>, layout: Layout) -> bool {
    let last = decls.len() - 1;
    &&& decls.len() > 0
    &&& decls[last].kind is Union
    &&& decls[last].name == name
    &&& has_members(decls[last], layout.tags)
    &&& forall|i: int|
        0 <= i < last ==> (#[trigger] decls[i]).kind is Struct && exists|v: int|
            0 <= v < layout.tags.len() && (#[trigger] decls[last].members[v]).1 == decls[i].name
    &&& forall|i: int, j: int|
        0 <= i < j < last ==> (#[trigger] decls[i]).name != (#[trigger] decls[j]).name
    &&& forall|v: int|
        0 <= v < layout.tags.len() && (#[trigger] layout.fields[v]).len() > 0 ==> exists|i: int|
            0 <= i < last && (#[trigger] decls[i]).name == decls[last].members[v].1 && has_members(
                decls[i],
                layout.fields[v],
            )
}

/// A UNION type, described by the Rust enum that stands for it. The tag of a
/// variant is its position in the declaration.
pub trait UnionSchema: Sized {
    /// The name of the type.
    spec fn name() -> NameView;

    /// The names of the variants and of their fields.
    spec fn layout() -> Layout;

    /// The tag of this value.
    spec fn index(&self) -> u8;

    /// The one value that follows the tag, or why it cannot be written.
    spec fn outer(&self) -> Result<ValueView, WriteErrorView>;

    /// Whether the value is what comes back for it. Only one that holds a NaN
    /// is not: a record keeps that as NULL.
    spec fn lasting(&self) -> bool;

    /// The name in `CREATE TYPE <name> AS UNION(…)`.
    fn union_name() -> (name: &'static str)
        ensures
            name@ == Self::name().text,
    ;

    /// The names of the variants, in the order of the declaration.
    fn variants() -> (names: &'static [&'static str])
        ensures
            texts(names@) == Self::layout().tags,
    ;

    /// The names of each variant's fields. A scalar variant has none.
    fn variant_fields() -> (names: &'static [&'static [&'static str]])
        ensures
            field_texts(names@) == Self::layout().fields,
            names@.len() == Self::layout().tags.len(),
    ;

    /// The tag of this value.
    fn tag_index(&self) -> (index: u8)
        ensures
            index == self.index(),
    ;

    /// The one value that follows the tag.
    fn encode_outer(&self) -> (r: EncodeResult<Value>)
        ensures
            serialize::write_outcome(r) == self.outer(),
    ;

    /// The value with this tag and what follows it. What a value of a known
    /// variant is written as is read back as a value that is written so; only
    /// where the value does not last may it be refused.
    fn decode(index: u8, outer: Value) -> (r: Result<Self, DecodeError>)
        ensures
            r matches Ok(value) ==> value.index() == index,
            forall|written: Self|
                #[trigger] written.index() == index && index < Self::layout().tags.len()
                    && written.outer() == Ok::<_, WriteErrorView>(outer@) ==> (match r {
                    Ok(value) => value.outer() == Ok::<_, WriteErrorView>(outer@),
                    Err(_) => !written.lasting(),
                }),
    ;

    /// The statements that declare the type: one for each payload, and that
    /// of the UNION behind them.
    fn create_type_sql() -> (sql: String)
        ensures
            declares(ddl::decls_in(sql@), Self::name().text, Self::layout()),
    ;

    /// The name of this value's variant.
    fn tag(&self) -> (name: &'static str)
        ensures
            name@ == tag_name(Self::layout().tags, self.index()),
    {
        let names: &'static [&'static str] = Self::variants();
        let at: usize = self.tag_index() as usize;
        assert(texts(names@).len() == names@.len());
        if at < names.len() {
            assert(texts(names@)[at as int] == names@[at as int]@);
            names[at]
        } else {
            "<out-of-range>"
        }
    }

    /// A blob of this type, made readable, where it is one.
    fn display_from_blob(blob: &[u8]) -> (r: Option<Vec<Piece>>)
        ensures
            display::rendering(r) == display::rendered(Self::layout(), blob@),
    {
        render_layout(Self::variants(), Self::variant_fields(), blob)
    }
}

/// A struct whose fields are the payload of a struct variant.
pub trait UnionStructPayload: Sized {
    /// The names of the fields, in the order of the declaration.
    const FIELD_NAMES: &'static [&'static str];

    /// What the fields are written as, or why one cannot be written.
    spec fn columns(&self) -> Result<ColumnsView, WriteErrorView>;

    /// The names of the fields with the keywords that declare them, in the
    /// order of the declaration.
    fn sql_struct_fields() -> (fields: Vec<(&'static str, &'static str)>)
        ensures
            fields@.len() == Self::FIELD_NAMES@.len(),
            forall|i: int|
                0 <= i < fields@.len() ==> (#[trigger] fields@[i]).0@ == Self::FIELD_NAMES@[i]@,
    ;

    /// The fields, in the order of the declaration.
    fn encode_fields(&self) -> (r: EncodeResult<Vec<Value>>)
        ensures
            match self.columns() {
                Ok(columns) => r matches Ok(values) && value::views(values@) == columns.values,
                Err(e) => r matches Err(reason) && reason@ == e,
            },
    ;

    /// The payload with these fields. What the fields of a payload are
    /// written as is read back as a payload that is written so.
    fn decode_fields(values: Vec<Value>) -> (r: Result<Self, DecodeError>)
        ensures
            forall|written: Self|
                #[trigger] written.columns() == Ok::<_, WriteErrorView>(
                    (ColumnsView { values: value::views(values@) }),
                ) ==> (r matches Ok(payload) && payload.columns() == written.columns()),
    ;
}

/// A storage class is that of the value, under the name that the engine has
/// for it; and two classes share no name.
pub proof fn classes_are_told_apart_by_name(v: ValueView, a: ValueKind, b: ValueKind)
    ensures
        kind_name(kind_of(v)) == (match v {
            ValueView::Null => "NULL"@,
            ValueView::Integer(_) => "INTEGER"@,
            ValueView::Real(_) => "REAL"@,
            ValueView::Text(_) => "TEXT"@,
            ValueView::Blob(_) => "BLOB"@,
        }),
        kind_name(a) == kind_name(b) ==> a == b,
{
    reveal_strlit("NULL");
    reveal_strlit("INTEGER");
    reveal_strlit("REAL");
    reveal_strlit("TEXT");
    reveal_strlit("BLOB");
    assert("NULL"@[0] == 'N' && "INTEGER"@[0] == 'I' && "REAL"@[0] == 'R' && "TEXT"@[0] == 'T'
        && "BLOB"@[0] == 'B');
}

/// The name of a tag is that at its position, and none of the names where
/// there are not so many.
pub proof fn tags_name_by_position(tags: Seq<Seq<char>>, index: u8)
    ensures
        index < tags.len() ==> tag_name(tags, index) == tags[index as int],
        index >= tags.len() ==> tag_name(tags, index) == "<out-of-range>"@,
{
}

/// A name is spelled as it is or in double quotes, with those in it doubled,
/// and in no third way.
pub proof fn names_are_spelled_plain_or_quoted(spelled: Seq<char>, name: Seq<char>)
    ensures
        spells(name, name),
        spells(backend::quoted(name), name),
        spells(spelled, name) && spelled != name ==> spelled.len() >= 2 && spelled[0] == '"'
            && spelled.last() == '"' && backend::unquoted(spelled.subrange(1, spelled.len() - 1))
            == Some(name),
{
    backend::quoted_identifiers_read_back(name);
}

} // verus!
