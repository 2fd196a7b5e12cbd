use diesel_turso::backend::{HasSqlType, Turso};
use diesel_turso::error::{ReadError, WriteErrorView};
use diesel_turso::sql_types::{BigInt, Binary, Bool, Double, Nullable, Text};
use diesel_turso::union::ddl::{parse_create_types, TypeKind};
use diesel_turso::union::display::{render_blob, render_layout, Piece};
use diesel_turso::union::field_type::{
    ddl_type_name, decode_field, encode_field, TursoFieldType,
};
use diesel_turso::union::schema::{
    ColumnsView, DecodeError, EncodeResult, Layout, NameView, UnionSchema, UnionStructPayload, ValueKind,
};
use diesel_turso::union::wire::{decode_union, encode_record, encode_union, WireError};
use diesel_turso::value::{Value, ValueView};

#[derive(Debug, PartialEq)]
struct Point {
    x: i64,
    label: Option<String>,
}

impl UnionStructPayload for Point {
    const FIELD_NAMES: &'static [&'static str] = &["x", "label"];

    fn columns(&self) -> Result<ColumnsView, WriteErrorView> {
        unreachable!()
    }

    fn sql_struct_fields() -> Vec<(&'static str, &'static str)> {
        vec![
            ("x", ddl_type_name::<<i64 as TursoFieldType>::SqlType>()),
            ("label", ddl_type_name::<<Option<String> as TursoFieldType>::SqlType>()),
        ]
    }

    fn encode_fields(&self) -> EncodeResult<Vec<Value>> {
        Ok(vec![
            encode_field::<BigInt, i64>(&self.x)?,
            encode_field::<Nullable<Text>, Option<String>>(&self.label)?,
        ])
    }

    fn decode_fields(values: Vec<Value>) -> Result<Self, DecodeError> {
        Ok(Point {
            x: decode_field::<BigInt, i64>(&values[0]).unwrap(),
            label: decode_field::<Nullable<Text>, Option<String>>(&values[1]).unwrap(),
        })
    }
}

#[derive(Debug, PartialEq)]
enum Shape {
    Number(i64),
    At(Point),
    Odd,
}

impl UnionSchema for Shape {
    fn name() -> NameView {
        unreachable!()
    }

    fn layout() -> Layout {
        unreachable!()
    }

    fn index(&self) -> u8 {
        unreachable!()
    }

    fn outer(&self) -> Result<ValueView, WriteErrorView> {
        unreachable!()
    }

    fn lasting(&self) -> bool {
        unreachable!()
    }

    fn union_name() -> &'static str {
        "shape"
    }

    fn variants() -> &'static [&'static str] {
        &["number", "at"]
    }

    fn variant_fields() -> &'static [&'static [&'static str]] {
        &[&[], &["x", "label"]]
    }

    fn tag_index(&self) -> u8 {
        match self {
            Shape::Number(_) => 0,
            Shape::At(_) => 1,
            Shape::Odd => 9,
        }
    }

    fn encode_outer(&self) -> EncodeResult<Value> {
        match self {
            Shape::Number(n) => encode_field::<BigInt, i64>(n),
            Shape::At(p) => Ok(Value::Blob(encode_record(&p.encode_fields()?))),
            Shape::Odd => Ok(Value::Null),
        }
    }

    fn decode(index: u8, outer: Value) -> Result<Self, DecodeError> {
        match (index, outer) {
            (0, Value::Integer(n)) => Ok(Shape::Number(n)),
            (1, Value::Blob(b)) => Ok(Shape::At(Point::decode_fields(
                diesel_turso::union::wire::decode_record(&b)?,
            )?)),
            (index, _) => Err(DecodeError::UnknownVariant {
                index,
                expected: Self::variants(),
            }),
        }
    }

    fn create_type_sql() -> String {
        "CREATE TYPE at_t AS STRUCT(x INT, label TEXT); \
         CREATE TYPE shape AS UNION(number INT, at at_t)"
            .into()
    }
}

fn blob_of(shape: &Shape) -> Vec<u8> {
    encode_union(shape.tag_index(), shape.encode_outer().unwrap())
}

#[test]
fn a_union_value_is_read_back() {
    for shape in [
        Shape::Number(-5),
        Shape::At(Point { x: 1, label: Some("a".into()) }),
        Shape::At(Point { x: 2, label: None }),
    ] {
        let (tag, outer) = decode_union(&blob_of(&shape)).unwrap();
        assert_eq!(Shape::decode(tag, outer).unwrap(), shape);
    }
}

#[test]
fn the_tag_names_the_variant() {
    assert_eq!(Shape::Number(1).tag(), "number");
    assert_eq!(Shape::At(Point { x: 1, label: None }).tag(), "at");
    assert_eq!(Shape::Odd.tag(), "<out-of-range>");
    assert_eq!(Shape::union_name(), "shape");
}

fn text(pieces: Vec<Piece>) -> String {
    pieces
        .iter()
        .map(|p| match p {
            Piece::Text(s) => s.clone(),
            Piece::Real(bits) => f64::from_bits(*bits).to_string(),
        })
        .collect()
}

#[test]
fn a_struct_variant_is_rendered() {
    let blob = blob_of(&Shape::At(Point { x: -3, label: Some("hi".into()) }));
    let expected = "{ type: at, x: -3, label: hi }";
    assert_eq!(text(render_blob::<Shape>(&blob).unwrap()), expected);
    assert_eq!(text(Shape::display_from_blob(&blob).unwrap()), expected);
    let blob = blob_of(&Shape::At(Point { x: 0, label: None }));
    assert_eq!(
        text(Shape::display_from_blob(&blob).unwrap()),
        "{ type: at, x: 0, label: null }"
    );
}

#[test]
fn floats_and_blobs_are_rendered_in_their_way() {
    let record = encode_record(&[Value::Real(1.5f64.to_bits()), Value::Blob(vec![1, 2, 3])]);
    let blob = encode_union(0, Value::Blob(record));
    let pieces = render_layout(&["v"], &[&["f", "b"]], &blob).unwrap();
    assert!(pieces.contains(&Piece::Real(1.5f64.to_bits())));
    assert_eq!(text(pieces), "{ type: v, f: 1.5, b: <blob 3 bytes> }");
    let blob = encode_union(0, Value::Blob(encode_record(&[])));
    let pieces = render_layout(&["v"], &[&[]], &blob).unwrap();
    assert_eq!(text(pieces), "{ type: v,  }");
}

#[test]
fn a_scalar_variant_is_rendered() {
    assert_eq!(
        text(render_blob::<Shape>(&blob_of(&Shape::Number(1))).unwrap()),
        "{ type: number, 1 }"
    );
    let rendered = |blob: &[u8]| text(render_layout(&["plain"], &[&[]], blob).unwrap());
    assert_eq!(encode_union(0, Value::Integer(42)), vec![0, 2, 1, 42]);
    assert_eq!(rendered(&[0, 2, 1, 42]), "{ type: plain, 42 }");
    assert_eq!(rendered(&encode_union(0, Value::Null)), "{ type: plain, null }");
    assert_eq!(rendered(&encode_union(0, Value::Text("hi".into()))), "{ type: plain, hi }");
    assert_eq!(
        rendered(&encode_union(0, Value::Blob(vec![9, 9]))),
        "{ type: plain, <blob 2 bytes> }"
    );
}

#[test]
fn what_is_no_value_of_the_layout_is_not_rendered() {
    assert_eq!(render_blob::<Shape>(&blob_of(&Shape::Odd)), None);
    assert_eq!(render_blob::<Shape>(&[1, 99]), None);
    let short = encode_union(1, Value::Blob(encode_record(&[Value::Integer(1)])));
    assert_eq!(render_blob::<Shape>(&short), None);
    assert_eq!(render_blob::<Shape>(&encode_union(1, Value::Integer(1))), None);
    let torn = encode_union(1, Value::Blob(vec![9]));
    assert_eq!(render_blob::<Shape>(&torn), None);
}

#[test]
fn a_field_is_declared_as_it_is_bound() {
    assert_eq!(
        Point::sql_struct_fields(),
        vec![("x", "INT"), ("label", "TEXT")]
    );
    assert_eq!(ddl_type_name::<Bool>(), "INT");
    assert_eq!(ddl_type_name::<Double>(), "REAL");
    assert_eq!(ddl_type_name::<Binary>(), "BLOB");
    assert_eq!(
        <Turso as HasSqlType<Nullable<Binary>>>::metadata(),
        <Turso as HasSqlType<Binary>>::metadata()
    );
}

#[test]
fn null_reaches_a_field_as_null() {
    assert_eq!(
        decode_field::<Nullable<BigInt>, Option<i64>>(&Value::Null).unwrap(),
        None
    );
    assert_eq!(
        decode_field::<Nullable<BigInt>, Option<i64>>(&Value::Integer(4)).unwrap(),
        Some(4)
    );
    assert!(matches!(
        decode_field::<BigInt, i64>(&Value::Null),
        Err(ReadError::UnexpectedNull)
    ));
    assert_eq!(
        encode_field::<Nullable<Text>, Option<String>>(&None).unwrap(),
        Value::Null
    );
}

#[test]
fn kinds_have_names() {
    let names: Vec<&str> = [
        Value::Null,
        Value::Integer(1),
        Value::Real(0),
        Value::Text(String::new()),
        Value::Blob(vec![]),
    ]
    .iter()
    .map(|v| ValueKind::of(v).as_str())
    .collect();
    assert_eq!(names, vec!["NULL", "INTEGER", "REAL", "TEXT", "BLOB"]);
}

#[test]
fn a_wire_error_is_a_decode_error() {
    let e: DecodeError = DecodeError::from(WireError::UnexpectedEof);
    assert!(matches!(e, DecodeError::Wire(WireError::UnexpectedEof)));
}

#[test]
fn the_declaration_names_the_layout() {
    let decls = parse_create_types(&Shape::create_type_sql());
    assert_eq!(decls.len(), 2);
    let names = |i: usize| -> Vec<String> {
        decls[i].members.iter().map(|m: &(String, String)| m.0.clone()).collect()
    };
    assert_eq!(decls[0].kind, TypeKind::Struct);
    assert_eq!(names(0), Shape::variant_fields()[1]);
    assert_eq!(decls[1].kind, TypeKind::Union);
    assert_eq!(decls[1].name, Shape::union_name());
    assert_eq!(names(1), Shape::variants());
    assert_eq!(decls[1].members[1].1, decls[0].name);
}
