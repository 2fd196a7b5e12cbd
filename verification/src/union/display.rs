//! UNION blobs made readable, as `{ type: <variant>, <field>: <value>, … }`.

use vstd::prelude::*;

use crate::text;
use crate::text::{push_decimal, push_signed_decimal};
use crate::union::schema;
use crate::union::schema::{Layout, UnionSchema};
use crate::union::wire;
use crate::union::wire::{decode_record, decode_union, WireErrorView};
use crate::value;
use crate::value::{Value, ValueView};

verus! {

/// A part of a rendering: text, or a float that is still to be spelled out,
/// by its bit pattern.
#[derive(Debug, PartialEq, Eq)]
pub enum Piece {
    Text(String),
    Real(u64),
}

/// What a rendering is made of, one character or float at a time.
pub enum Glyph {
    Char(char),
    Real(u64),
}

/// The character at a position of a text, as a rendering has it.
pub open spec fn char_at(s: Seq<char>, i: int) -> Glyph {
    Glyph::Char(s[i])
}

/// A text as a rendering.
pub open spec fn chars(s: Seq<char>) -> Seq<Glyph> {
    Seq::new(s.len(), |i: int| char_at(s, i))
}

/// What a piece comes to.
pub open spec fn piece_glyphs(piece: Piece) -> Seq<Glyph> {
    match piece {
        Piece::Text(s) => chars(s@),
        Piece::Real(bits) => seq![Glyph::Real(bits)],
    }
}

/// What pieces come to, one behind the other.
pub open spec fn glyphs(pieces: Seq<Piece>) -> Seq<Glyph>
    decreases pieces.len(),
{
    if pieces.len() == 0 {
        Seq::empty()
    } else {
        glyphs(pieces.drop_last()) + piece_glyphs(pieces.last())
    }
}

/// A value, made readable. Text is not quoted, and of a blob only the length
/// is told.
pub open spec fn value_glyphs(v: ValueView) -> Seq<Glyph> {
    match v {
        ValueView::Null => chars("null"@),
        ValueView::Integer(n) => chars(text::signed_decimal(n as int)),
        ValueView::Real(bits) => seq![Glyph::Real(bits)],
        ValueView::Text(s) => chars(s),
        ValueView::Blob(b) => chars("<blob "@) + chars(text::decimal(b.len())) + chars(" bytes>"@),
    }
}

/// The first `n` fields with their values, with commas between them.
pub open spec fn fields_glyphs(
    fields: Seq<Seq<char>>,
    values: Seq<ValueView>,
    n: int,
) -> Seq<Glyph>
    decreases n,
{
    if n <= 0 {
        Seq::empty()
    } else {
        fields_glyphs(fields, values, n - 1) + (if n > 1 {
            chars(", "@)
        } else {
            Seq::empty()
        }) + chars(fields[n - 1]) + chars(": "@) + value_glyphs(values[n - 1])
    }
}

/// What the payload of a variant with these fields comes to: the fields with
/// their values, where it is a record of as many. That of a scalar variant,
/// which has no fields, is else the value itself.
pub open spec fn payload_glyphs(fields: Seq<Seq<char>>, payload: ValueView) -> Option<
    Seq<Glyph>,
> {
    match payload {
        ValueView::Blob(inner) => match wire::parse_record(inner) {
            Ok(values) => if values.len() == fields.len() {
                Some(fields_glyphs(fields, values, values.len() as int))
            } else {
                scalar_glyphs(fields, payload)
            },
            Err(_) => scalar_glyphs(fields, payload),
        },
        _ => scalar_glyphs(fields, payload),
    }
}

/// The payload of a scalar variant: its value. A variant with fields is none.
pub open spec fn scalar_glyphs(fields: Seq<Seq<char>>, payload: ValueView) -> Option<
    Seq<Glyph>,
> {
    if fields.len() == 0 {
        Some(value_glyphs(payload))
    } else {
        None
    }
}

/// The rendering of a blob under a layout. There is none where the bytes are
/// no UNION value of that layout: they are malformed, the tag names no
/// variant, or the payload is no record of the variant's fields.
pub open spec fn rendered(layout: Layout, blob: Seq<u8>) -> Option<Seq<Glyph>> {
    let tags = layout.tags;
    let fields = layout.fields;
    match wire::parse_union(blob) {
        Ok((tag, payload)) => if tag < tags.len() && tag < fields.len() {
            match payload_glyphs(fields[tag as int], payload) {
                Some(inner) => Some(
                    chars("{ type: "@) + chars(tags[tag as int]) + chars(", "@) + inner + chars(
                        " }"@,
                    ),
                ),
                None => None,
            }
        } else {
            None
        },
        Err(_) => None,
    }
}

fn push_piece(out: &mut Vec<Piece>, piece: Piece)
    ensures
        glyphs(final(out)@) == glyphs(old(out)@) + piece_glyphs(piece),
{
    out.push(piece);
    assert(out@.drop_last() =~= old(out)@);
}

fn push_text(out: &mut Vec<Piece>, s: &str)
    ensures
        glyphs(final(out)@) == glyphs(old(out)@) + chars(s@),
{
    push_piece(out, Piece::Text(s.to_owned()));
}

fn render_value(out: &mut Vec<Piece>, v: &Value)
    ensures
        glyphs(final(out)@) == glyphs(old(out)@) + value_glyphs(v@),
{
    match v {
        Value::Null => push_text(out, "null"),
        Value::Integer(n) => {
            let mut s: String = String::new();
            push_signed_decimal(&mut s, *n);
            assert(s@ =~= text::signed_decimal(*n as int));
            push_piece(out, Piece::Text(s));
        },
        Value::Real(bits) => push_piece(out, Piece::Real(*bits)),
        Value::Text(s) => push_text(out, s.as_str()),
        Value::Blob(b) => {
            push_text(out, "<blob ");
            let mut s: String = String::new();
            push_decimal(&mut s, b.len() as u64);
            assert(s@ =~= text::decimal(b@.len()));
            push_piece(out, Piece::Text(s));
            push_text(out, " bytes>");
            assert(glyphs(out@) =~= glyphs(old(out)@) + value_glyphs(v@));
        },
    }
}

/// What a rendering comes to, where there is one.
pub open spec fn rendering(r: Option<Vec<Piece>>) -> Option<Seq<Glyph>> {
    match r {
        Some(pieces) => Some(glyphs(pieces@)),
        None => None,
    }
}

/// Renders a blob under a layout.
pub fn render_layout(tags: &[&str], fields: &[&[&str]], blob: &[u8]) -> (r: Option<Vec<Piece>>)
    ensures
        rendering(r) == rendered(
            (Layout { tags: schema::texts(tags@), fields: schema::field_texts(fields@) }),
            blob@,
        ),
{
    let (tag_index, outer): (u8, Value) = match decode_union(blob) {
        Ok(decoded) => decoded,
        Err(_) => {
            return None;
        },
    };
    let at: usize = tag_index as usize;
    if at >= tags.len() || at >= fields.len() {
        return None;
    }
    let tag: &str = tags[at];
    let names: &[&str] = fields[at];
    assert(schema::texts(tags@)[at as int] == tag@);
    assert(schema::field_texts(fields@)[at as int] == schema::texts(names@));
    let mut out: Vec<Piece> = Vec::new();
    push_text(&mut out, "{ type: ");
    push_text(&mut out, tag);
    push_text(&mut out, ", ");
    let ghost head = glyphs(out@);
    assert(head =~= chars("{ type: "@) + chars(tag@) + chars(", "@));
    if !render_payload(&mut out, names, &outer) {
        return None;
    }
    push_text(&mut out, " }");
    Some(out)
}

/// The fields of a record, where there are `n` of them.
fn record_of(payload: &Value, n: usize) -> (r: Option<Vec<Value>>)
    ensures
        match r {
            Some(values) => payload@ matches ValueView::Blob(inner) && wire::parse_record(inner)
                == Ok::<_, WireErrorView>(value::views(values@)) && values@.len() == n,
            None => !(payload@ matches ValueView::Blob(inner) && wire::parse_record(
                inner,
            ) matches Ok(values) && values.len() == n),
        },
{
    match payload {
        Value::Blob(inner) => match decode_record(inner.as_slice()) {
            Ok(values) => if values.len() == n {
                Some(values)
            } else {
                None
            },
            Err(_) => None,
        },
        _ => None,
    }
}

/// Appends what the payload of a variant comes to, and says whether it is one.
fn render_payload(out: &mut Vec<Piece>, names: &[&str], payload: &Value) -> (done: bool)
    ensures
        match payload_glyphs(schema::texts(names@), payload@) {
            Some(inner) => done && glyphs(final(out)@) == glyphs(old(out)@) + inner,
            None => !done,
        },
{
    let values: Vec<Value> = match record_of(payload, names.len()) {
        Some(values) => values,
        None => {
            if names.len() == 0 {
                render_value(out, payload);
                return true;
            }
            return false;
        },
    };
    let ghost head = glyphs(out@);
    let ghost columns = value::views(values@);
    let mut i: usize = 0;
    assert(glyphs(out@) =~= head + fields_glyphs(schema::texts(names@), columns, 0));
    while i < values.len()
        invariant
            i <= values@.len(),
            values@.len() == names@.len(),
            columns == value::views(values@),
            glyphs(out@) == head + fields_glyphs(schema::texts(names@), columns, i as int),
        decreases values@.len() - i,
    {
        if i > 0 {
            push_text(out, ", ");
        }
        push_text(out, names[i]);
        push_text(out, ": ");
        render_value(out, &values[i]);
        assert(schema::texts(names@)[i as int] == names@[i as int]@);
        assert(columns[i as int] == values@[i as int]@);
        i = i + 1;
        assert(glyphs(out@) =~= head + fields_glyphs(schema::texts(names@), columns, i as int));
    }
    true
}

/// Renders a blob under the layout of `T`.
pub fn render_blob<T: UnionSchema>(blob: &[u8]) -> (r: Option<Vec<Piece>>)
    ensures
        rendering(r) == rendered(T::layout(), blob@),
{
    render_layout(T::variants(), T::variant_fields(), blob)
}

/// A struct variant that was written under a layout is rendered under it,
/// field by field.
pub proof fn struct_variants_render(
    layout: Layout,
    tag: u8,
    columns: Seq<ValueView>,
)
    requires
        tag < layout.tags.len(),
        tag < layout.fields.len(),
        columns.len() == layout.fields[tag as int].len(),
        wire::recordable(columns),
        wire::serial_fits(ValueView::Blob(wire::record(columns))),
    ensures
        rendered(layout, wire::union_blob(tag, ValueView::Blob(wire::record(columns))))
            == Some(
            chars("{ type: "@) + chars(layout.tags[tag as int]) + chars(", "@) + fields_glyphs(
                layout.fields[tag as int],
                wire::all_stored(columns),
                columns.len() as int,
            ) + chars(" }"@),
        ),
{
    wire::struct_variant_reads_back(tag, columns);
}

/// A scalar variant that was written under a layout is rendered under it. A
/// blob among the scalars is told by its length, unless it is the record of
/// no values, which is rendered as that.
pub proof fn scalar_variants_render(layout: Layout, tag: u8, scalar: ValueView)
    requires
        tag < layout.tags.len(),
        tag < layout.fields.len(),
        layout.fields[tag as int].len() == 0,
        wire::serial_fits(scalar),
    ensures
        rendered(layout, wire::union_blob(tag, scalar)) is Some,
        !(scalar matches ValueView::Blob(inner) && wire::parse_record(inner) == Ok::<
            _,
            WireErrorView,
        >(Seq::<ValueView>::empty())) ==> rendered(layout, wire::union_blob(tag, scalar)) == Some(
            chars("{ type: "@) + chars(layout.tags[tag as int]) + chars(", "@) + value_glyphs(
                wire::stored(scalar),
            ) + chars(" }"@),
        ),
{
    wire::union_reads_back(tag, scalar);
    if let ValueView::Blob(inner) = scalar {
        if let Ok(values) = wire::parse_record(inner) {
            if values.len() == 0 {
                assert(values =~= Seq::<ValueView>::empty());
            }
        }
    }
}

/// The text of a rendering, up to its first float.
pub open spec fn spelled(glyphs: Seq<Glyph>) -> Seq<char>
    decreases glyphs.len(),
{
    if glyphs.len() == 0 {
        Seq::empty()
    } else {
        match glyphs[0] {
            Glyph::Char(c) => seq![c] + spelled(glyphs.skip(1)),
            Glyph::Real(_) => Seq::empty(),
        }
    }
}

pub(crate) proof fn lemma_spelled(s: Seq<char>)
    ensures
        spelled(chars(s)) == s,
    decreases s.len(),
{
    if s.len() > 0 {
        let rest = s.skip(1);
        lemma_spelled(rest);
        assert(chars(s)[0] == char_at(s, 0));
        assert forall|i: int| 0 <= i < rest.len() implies chars(s).skip(1)[i] == #[trigger] chars(
            rest,
        )[i] by {
            assert(char_at(s, i + 1) == char_at(rest, i));
        }
        assert(chars(s).skip(1) =~= chars(rest));
        assert(seq![s[0]] + rest =~= s);
    } else {
        assert(s =~= Seq::empty());
    }
}

pub(crate) proof fn lemma_chars_joined(a: Seq<char>, b: Seq<char>)
    ensures
        chars(a + b) == chars(a) + chars(b),
{
    let all = chars(a + b);
    assert forall|i: int| 0 <= i < all.len() implies #[trigger] all[i] == (chars(a) + chars(b))[i] by {
        if i < a.len() {
            assert(char_at(a + b, i) == char_at(a, i));
        } else {
            assert(char_at(a + b, i) == char_at(b, i - a.len()));
        }
    }
    assert(all =~= chars(a) + chars(b));
}

/// A value is rendered as what it is: NULL by its name, an integer in decimal
/// with its sign, a text as it stands, a float as one still to be spelled
/// out, and a blob by its length in decimal between fixed words.
pub proof fn values_are_rendered_as_what_they_are(v: ValueView)
    ensures
        match v {
            ValueView::Null => spelled(value_glyphs(v)) == "null"@,
            ValueView::Integer(n) => ({
                let s = spelled(value_glyphs(v));
                if n < 0 {
                    s[0] == '-' && text::digits_value(s.skip(1)) == -n
                } else {
                    s[0] != '-' && text::digits_value(s) == n
                }
            }),
            ValueView::Real(bits) => value_glyphs(v) == seq![Glyph::Real(bits)],
            ValueView::Text(s) => spelled(value_glyphs(v)) == s && value_glyphs(v).len() == s.len(),
            ValueView::Blob(b) => ({
                let s = spelled(value_glyphs(v));
                &&& s.len() > 13
                &&& s.take(6) == "<blob "@
                &&& s.skip(s.len() - 7) == " bytes>"@
                &&& text::digits_value(s.subrange(6, s.len() - 7)) == b.len()
            }),
        },
{
    reveal_strlit("<blob ");
    reveal_strlit(" bytes>");
    match v {
        ValueView::Null => lemma_spelled("null"@),
        ValueView::Integer(n) => {
            lemma_spelled(text::signed_decimal(n as int));
            text::signed_decimals_spell_their_number(n as int);
        },
        ValueView::Text(s) => lemma_spelled(s),
        ValueView::Blob(b) => {
            let number = text::decimal(b.len());
            text::decimals_spell_their_number(b.len());
            let s = "<blob "@ + number + " bytes>"@;
            lemma_chars_joined("<blob "@, number);
            lemma_chars_joined("<blob "@ + number, " bytes>"@);
            lemma_spelled(s);
            assert(s.take(6) =~= "<blob "@);
            assert(s.skip(s.len() - 7) =~= " bytes>"@);
            assert(s.subrange(6, s.len() - 7) =~= number);
        },
        _ => {},
    }
}

/// Fields are rendered in order: one more stands behind a comma and a space,
/// its name before its value with a colon and a space between them.
pub proof fn fields_are_rendered_in_order(
    fields: Seq<Seq<char>>,
    values: Seq<ValueView>,
    name: Seq<char>,
    v: ValueView,
)
    requires
        fields.len() == values.len(),
    ensures
        fields_glyphs(Seq::empty(), Seq::empty(), 0) == Seq::<Glyph>::empty(),
        ({
            let n = fields.len() as int;
            let one = chars(name) + chars(": "@) + value_glyphs(v);
            fields_glyphs(fields.push(name), values.push(v), n + 1) == (if n == 0 {
                one
            } else {
                fields_glyphs(fields, values, n) + chars(", "@) + one
            })
        }),
{
    let n = fields.len() as int;
    lemma_fields_agree(fields, values, fields.push(name), values.push(v), n);
    let one = chars(name) + chars(": "@) + value_glyphs(v);
    let all = fields_glyphs(fields.push(name), values.push(v), n + 1);
    assert(fields.push(name)[n] == name && values.push(v)[n] == v);
    if n == 0 {
        assert(all =~= one);
    } else {
        assert(all =~= fields_glyphs(fields, values, n) + chars(", "@) + one);
    }
}

proof fn lemma_fields_agree(
    fields: Seq<Seq<char>>,
    values: Seq<ValueView>,
    more_fields: Seq<Seq<char>>,
    more_values: Seq<ValueView>,
    n: int,
)
    requires
        forall|i: int| 0 <= i < n ==> fields[i] == more_fields[i],
        forall|i: int| 0 <= i < n ==> values[i] == more_values[i],
    ensures
        fields_glyphs(fields, values, n) == fields_glyphs(more_fields, more_values, n),
    decreases n,
{
    if n > 0 {
        lemma_fields_agree(fields, values, more_fields, more_values, n - 1);
    }
}

/// Bytes are rendered exactly where they are a UNION value whose tag names a
/// variant, and whose payload is a record of as many values as the variant
/// has fields, or else any value of a variant without fields.
pub proof fn only_values_of_the_layout_are_rendered(layout: Layout, blob: Seq<u8>)
    requires
        layout.tags.len() == layout.fields.len(),
    ensures
        rendered(layout, blob) is Some <==> (wire::parse_union(blob) matches Ok((tag, payload))
            && tag < layout.tags.len() && (layout.fields[tag as int].len() == 0
            || (payload matches ValueView::Blob(inner) && wire::parse_record(inner) matches Ok(values)
            && values.len() == layout.fields[tag as int].len()))),
        rendered(layout, blob) matches Some(all) ==> all.len() >= 10,
{
    reveal_strlit("{ type: ");
    reveal_strlit(" }");
}

/// A rendering comes to its pieces, one behind the other.
pub proof fn renderings_are_made_of_their_pieces(pieces: Seq<Piece>, next: Piece)
    ensures
        glyphs(Seq::empty()) == Seq::<Glyph>::empty(),
        glyphs(pieces.push(next)) == glyphs(pieces) + piece_glyphs(next),
        next matches Piece::Text(s) ==> spelled(piece_glyphs(next)) == s@ && piece_glyphs(next).len()
            == s@.len(),
        next matches Piece::Real(bits) ==> piece_glyphs(next) == seq![Glyph::Real(bits)],
{
    assert(pieces.push(next).drop_last() =~= pieces);
    if let Piece::Text(s) = next {
        lemma_spelled(s@);
    }
}

} // verus!
