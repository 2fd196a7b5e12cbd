use diesel_turso::query::{column_of, prepare, Column, QueryFragment};
use diesel_turso::sql_types::{BigInt, Nullable, TaggedUnion};
use diesel_turso::union::expr::{
    Composite, CompositeExpressionMethods, CompositeField, CompositeShape, NullableComposite,
    NullableOf, UnionExpressionMethods, UnionVariant,
};
use diesel_turso::union::field_type::ddl_type_name;

struct MessageId;

struct Telegram;

struct TelegramFields;

struct ChatId;

struct First;

impl UnionVariant for Telegram {
    type Union = MessageId;
    type Payload = NullableComposite<TelegramFields>;
    const TAG: u8 = 0;
    const TAG_NAME: &'static str = "telegram";
}

impl UnionVariant for First {
    type Union = MessageId;
    type Payload = Nullable<BigInt>;
    const TAG: u8 = 1;
    const TAG_NAME: &'static str = "\"first\"";
}

impl CompositeShape for TelegramFields {
    const FIELD_NAMES: &'static [&'static str] = &["chat_id"];
}

impl CompositeField for ChatId {
    type Shape = TelegramFields;
    type SqlType = Nullable<BigInt>;
    const NAME: &'static str = "chat_id";
    const INDEX: usize = 0;
}

fn mid() -> Column<TaggedUnion<MessageId>> {
    column_of("messages", "mid")
}

fn sql<Q: QueryFragment>(q: &Q) -> String {
    let p = prepare(q).unwrap();
    assert!(p.safe_to_cache);
    assert!(p.binds.is_empty());
    p.sql
}

#[test]
fn names_are_text_and_not_binds() {
    assert_eq!(
        sql(&mid().extract(Telegram)),
        r#"union_extract("messages"."mid", 'telegram')"#
    );
    assert_eq!(
        sql(&mid().extract(Telegram).field(ChatId)),
        r#"struct_extract(union_extract("messages"."mid", 'telegram'), 'chat_id')"#
    );
    assert_eq!(sql(&mid().union_tag()), r#"union_tag("messages"."mid")"#);
}

#[test]
fn a_stored_quote_is_part_of_the_name() {
    assert_eq!(
        sql(&mid().extract(First)),
        r#"union_extract("messages"."mid", '"first"')"#
    );
    assert_eq!(First::TAG, 1);
    assert_eq!(TelegramFields::FIELD_NAMES[ChatId::INDEX], ChatId::NAME);
}

#[test]
fn a_nullable_column_is_reached_into_alike() {
    let nullable: Column<Nullable<TaggedUnion<MessageId>>> = column_of("m", "mid");
    assert_eq!(
        sql(&nullable.extract(Telegram)),
        r#"union_extract("m"."mid", 'telegram')"#
    );
    assert_eq!(
        ddl_type_name::<NullableComposite<TelegramFields>>(),
        "BLOB"
    );
}

#[test]
fn a_nullable_type_is_its_own_nullable_form() {
    fn same<T>(_: fn() -> T, _: fn() -> T) {}
    fn of<T>() -> T {
        unreachable!()
    }
    same(of::<NullableOf<BigInt>>, of::<Nullable<BigInt>>);
    same(of::<NullableOf<Nullable<BigInt>>>, of::<Nullable<BigInt>>);
    same(
        of::<NullableOf<Composite<TelegramFields>>>,
        of::<NullableComposite<TelegramFields>>,
    );
}
