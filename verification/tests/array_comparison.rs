use diesel_turso::array_comparison::{decode_expr, many, subselect, In, JsonList, Many, NotIn};
use diesel_turso::bind::TursoBindBuffer;
use diesel_turso::backend::TursoType;
use diesel_turso::error::{QueryError, WriteError, WriteErrorView};
use diesel_turso::query::{column_of, prepare, Column, Keyword, QueryFragment};
use diesel_turso::serialize::{IsNull, ToSql};
use diesel_turso::sql_types::{BigInt, Binary, Double, Nullable, Text};
use diesel_turso::types::RealBits;
use diesel_turso::value::{Value, ValueView};

fn id() -> Column<BigInt> {
    column_of("t", "id")
}

fn rendered<Q: QueryFragment>(q: &Q) -> (String, Vec<Value>, bool) {
    let p = prepare(q).unwrap();
    (p.sql, p.binds, p.safe_to_cache)
}

fn ids(values: Vec<i64>) -> Many<BigInt, i64> {
    many(values)
}

#[test]
fn integers_travel_as_json_numbers() {
    let q = In { left: id(), values: ids(vec![1, -2, i64::MIN, i64::MAX]) };
    assert_eq!(
        rendered(&q),
        (
            r#""t"."id" IN (SELECT value FROM json_each(?))"#.to_string(),
            vec![Value::Text(
                "[1,-2,-9223372036854775808,9223372036854775807]".into()
            )],
            true
        )
    );
}

#[test]
fn one_text_for_every_length() {
    let empty = rendered(&In { left: id(), values: ids(vec![]) });
    let one = rendered(&In { left: id(), values: ids(vec![1]) });
    let three = rendered(&In { left: id(), values: ids(vec![1, 2, 3]) });
    assert_eq!(empty.0, one.0);
    assert_eq!(one.0, three.0);
    assert_eq!(empty.1, vec![Value::Text("[]".into())]);
    assert!(empty.2);
    let not_empty = rendered(&NotIn { left: id(), values: ids(vec![]) });
    let not_two = rendered(&NotIn { left: id(), values: ids(vec![7, 8]) });
    assert_eq!(
        not_empty.0,
        r#""t"."id" NOT IN (SELECT value FROM json_each(?))"#
    );
    assert_eq!(not_empty.0, not_two.0);
}

#[test]
fn blobs_and_texts_travel_as_hex() {
    let blobs = rendered(&many::<Binary, Vec<u8>>(vec![vec![0x00, 0xff, 0x1a], vec![]]));
    assert_eq!(blobs.0, "SELECT unhex(value) FROM json_each(?)");
    assert_eq!(blobs.1, vec![Value::Text(r#"["00ff1a",""]"#.into())]);
    let texts = rendered(&many::<Text, String>(vec!["a\"b".into(), "é\n".into()]));
    assert_eq!(
        texts.0,
        "SELECT CAST(unhex(value) AS TEXT) FROM json_each(?)"
    );
    assert_eq!(texts.1, vec![Value::Text(r#"["612262","c3a90a"]"#.into())]);
}

#[test]
fn a_null_element_is_null() {
    let list = many::<Nullable<BigInt>, Option<i64>>(vec![Some(1), None]);
    assert_eq!(rendered(&list).1, vec![Value::Text("[1,null]".into())]);
}

#[test]
fn floats_keep_one_placeholder_each() {
    let reals = vec![RealBits(1.5f64.to_bits()), RealBits(2.5f64.to_bits())];
    let list = many::<Double, RealBits>(reals);
    let column: Column<Double> = column_of("t", "x");
    let q = In { left: column, values: list };
    assert_eq!(
        rendered(&q),
        (
            r#""t"."x" IN (?, ?)"#.to_string(),
            vec![
                Value::Real(1.5f64.to_bits()),
                Value::Real(2.5f64.to_bits())
            ],
            false
        )
    );
    let none = In {
        left: column_of::<Double>("t", "x"),
        values: many::<Double, RealBits>(vec![]),
    };
    assert_eq!(rendered(&none), ("1=0".to_string(), vec![], true));
    let all = NotIn {
        left: column_of::<Double>("t", "x"),
        values: many::<Double, RealBits>(vec![]),
    };
    assert_eq!(rendered(&all), ("1=1".to_string(), vec![], true));
}

#[test]
fn subqueries_are_rendered_as_they_stand() {
    let q = In {
        left: id(),
        values: subselect::<BigInt, Keyword>(Keyword("SELECT id FROM u")),
    };
    assert_eq!(
        rendered(&q),
        (r#""t"."id" IN (SELECT id FROM u)"#.to_string(), vec![], true)
    );
}

#[test]
fn the_decoding_follows_the_storage_class() {
    assert_eq!(decode_expr::<BigInt>(), Some("value"));
    assert_eq!(decode_expr::<Binary>(), Some("unhex(value)"));
    assert_eq!(decode_expr::<Text>(), Some("CAST(unhex(value) AS TEXT)"));
    assert_eq!(decode_expr::<Nullable<Text>>(), decode_expr::<Text>());
    assert_eq!(decode_expr::<Double>(), None);
}

/// Promises an integer and writes a text.
struct Liar;

impl ToSql<BigInt> for Liar {
    fn written(&self) -> Result<ValueView, WriteErrorView> {
        unreachable!()
    }

    fn to_sql(&self, out: &mut TursoBindBuffer) -> Result<IsNull, WriteError> {
        out.set_value(TursoBindBuffer::from("x"));
        Ok(IsNull::No)
    }
}

#[test]
fn an_element_of_another_class_is_an_error() {
    match prepare(&many::<BigInt, Liar>(vec![Liar])) {
        Err(QueryError::SerializationError(WriteError::ListElement { got, class })) => {
            assert_eq!(got, Value::Text("x".into()));
            assert_eq!(class, TursoType::Integer);
        }
        other => panic!("{other:?}"),
    }
}

#[test]
fn other_lists_have_other_json() {
    let a = rendered(&ids(vec![1, 23])).1;
    let b = rendered(&ids(vec![12, 3])).1;
    assert_ne!(a, b);
    let c = rendered(&many::<Text, String>(vec!["".into()])).1;
    let d = rendered(&many::<Text, String>(vec![])).1;
    assert_ne!(c, d);
}

#[test]
fn a_refused_list_leaves_the_buffer_as_it_was() {
    let mut out = TursoBindBuffer::from(7i64);
    let refused = vec![RealBits(0)];
    let r = <Vec<RealBits> as ToSql<JsonList<Double>>>::to_sql(&refused, &mut out);
    assert!(matches!(r, Err(WriteError::ListElement { class: TursoType::Real, .. })));
    assert_eq!(out.into_value(), Value::Integer(7));
    let mut out = TursoBindBuffer::from(7i64);
    let r = <Vec<i64> as ToSql<JsonList<BigInt>>>::to_sql(&vec![1, 2], &mut out);
    assert!(matches!(r, Ok(IsNull::No)));
    assert_eq!(out.into_value(), Value::Text("[1,2]".into()));
}
