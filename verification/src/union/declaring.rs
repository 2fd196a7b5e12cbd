//! What comparing declarations comes to, call by call.

use vstd::prelude::*;

use crate::error::TursoError;
use crate::probe;
use crate::probe::{DeclaredType, TypeCheckError};
use crate::text;
use crate::union::ddl;
use crate::union::ddl::{DeclarationDrift, TypeDecl, TypeDeclView, TypeIndex, TypeKind};
use crate::union::schema;
use crate::value;
use crate::value::Value;

verus! {

/// An index has under a key what was put there last, and nothing under any
/// other key.
pub proof fn indexes_have_what_was_put_last(
    fresh: TypeIndex,
    first: &mut TypeIndex,
    key: String,
    decl: TypeDecl,
    second: &mut TypeIndex,
    other: TypeDecl,
    wanted: &str,
    found: Option<&TypeDecl>,
)
    requires
        call_ensures(TypeIndex::new, (), fresh),
        *old(first) == fresh,
        call_ensures(TypeIndex::insert, (first, key, decl), ()),
        *old(second) == *final(first),
        call_ensures(TypeIndex::insert, (second, key, other), ()),
        call_ensures(TypeIndex::get, (&*final(second), wanted), found),
    ensures
        wanted@ == key@ ==> (found matches Some(d) && d@ == other@),
        wanted@ != key@ ==> found is None,
{
}

/// Declarations are stored under their names in lower case, and compared with
/// what is stored there by their texts in lower case. A comparison with
/// themselves finds nothing, provided that no two share a name.
pub proof fn scripts_agree_with_themselves(
    sql: &str,
    decls: Vec<TypeDecl>,
    index: TypeIndex,
    drift: DeclarationDrift,
    clean: bool,
    lines: String,
)
    requires
        call_ensures(ddl::parse_create_types, (sql,), decls),
        call_ensures(ddl::index_by_name, (decls,), index),
        call_ensures(ddl::check_declarations, (sql, &index), drift),
        call_ensures(DeclarationDrift::is_empty, (&drift,), clean),
        call_ensures(DeclarationDrift::describe, (&drift,), lines),
    ensures
        (forall|i: int, j: int|
            0 <= i < j < decls@.len() ==> text::in_lower_case((#[trigger] decls@[i])@.name)
                != text::in_lower_case((#[trigger] decls@[j])@.name)) ==> clean,
        clean <==> drift@.missing.len() == 0 && drift@.differs.len() == 0,
        clean ==> lines@.len() == 0,
{
    let views = ddl::decl_views(decls@);
    if forall|i: int, j: int|
        0 <= i < j < decls@.len() ==> text::in_lower_case((#[trigger] decls@[i])@.name)
            != text::in_lower_case((#[trigger] decls@[j])@.name) {
        assert forall|i: int, j: int| 0 <= i < j < views.len() implies text::in_lower_case(
            (#[trigger] views[i]).name,
        ) != text::in_lower_case((#[trigger] views[j]).name) by {
            assert(views[i] == decls@[i]@ && views[j] == decls@[j]@);
            assert(text::in_lower_case(decls@[i]@.name) != text::in_lower_case(decls@[j]@.name));
        }
        ddl::declarations_agree_with_themselves(views);
    }
}

/// A key is the line of a declaration in lower case, and that of the
/// declaration in lower case is the same line as it stands.
pub proof fn keys_are_lines_in_lower_case(
    decl: TypeDecl,
    key: String,
    low: TypeDecl,
    line: String,
)
    requires
        call_ensures(TypeDecl::canonical, (&decl,), key),
        call_ensures(TypeDecl::lowercased, (&decl,), low),
        call_ensures(TypeDecl::render, (&low,), line),
    ensures
        key@ == line@,
        low@.kind == decl@.kind,
        low@.members.len() == decl@.members.len(),
        low@.name == text::in_lower_case(decl@.name),
{
}

/// A finding on a type is that it is missing where nothing is stored, that it
/// differs where the texts do, and none where they are the same.
pub proof fn findings_are_added_where_texts_differ(
    drift: &mut DeclarationDrift,
    name: &str,
    derived: String,
    found: Option<String>,
)
    requires
        call_ensures(DeclarationDrift::add_finding, (drift, name, derived, found), ()),
    ensures
        found is None ==> final(drift)@.missing == old(drift)@.missing.push(name@)
            && final(drift)@.differs == old(drift)@.differs,
        found matches Some(stored) ==> final(drift)@.missing == old(drift)@.missing && (if stored@
            == derived@ {
            final(drift)@.differs == old(drift)@.differs
        } else {
            final(drift)@.differs == old(drift)@.differs.push((name@, derived@, stored@))
        }),
{
}

/// The keywords of the two kinds are known in lower case, and no others.
pub proof fn keywords_name_their_kinds(word: &str, kind: Option<TypeKind>)
    requires
        call_ensures(ddl::kind_from_keyword, (word,), kind),
    ensures
        word@ == "struct"@ <==> kind == Some(TypeKind::Struct),
        word@ == "union"@ <==> kind == Some(TypeKind::Union),
{
    reveal_strlit("struct");
    reveal_strlit("union");
    assert("struct"@.len() == 6 && "union"@.len() == 5);
}

/// A script that is stripped has no comment left, and is read as before.
pub proof fn stripped_scripts_are_read_alike(
    sql: &str,
    out: String,
    again: &str,
    before: Vec<TypeDecl>,
    after: Vec<TypeDecl>,
)
    requires
        call_ensures(ddl::strip_comments, (sql,), out),
        again@ == out@,
        call_ensures(ddl::parse_create_types, (sql,), before),
        call_ensures(ddl::parse_create_types, (again,), after),
    ensures
        before@.len() == after@.len(),
        forall|i: int| 0 <= i < before@.len() ==> (#[trigger] before@[i])@ == after@[i]@,
{
    let (a, b) = (ddl::decl_views(before@), ddl::decl_views(after@));
    assert(a == b);
    assert(a.len() == before@.len() && b.len() == after@.len());
    assert forall|i: int| 0 <= i < before@.len() implies (#[trigger] before@[i])@ == after@[i]@ by {
        assert(a[i] == before@[i]@ && b[i] == after@[i]@);
    }
}

/// A database is certified at once where there is nothing to certify, and is
/// not where it cannot be asked. Else it is certified exactly where each
/// declaration is waived or stored with the same layout.
pub proof fn databases_are_certified_by_their_declarations(
    types: &[DeclaredType],
    read: Result<Vec<Value>, TursoError>,
    waived: &[&str],
    r: Result<(), TypeCheckError>,
)
    requires
        call_ensures(probe::verify_declared_types, (types, read, waived), r),
    ensures
        types@.len() == 0 ==> r is Ok,
        types@.len() > 0 ==> (read matches Err(e) ==> r == Err::<(), _>(TypeCheckError::Read(e))),
        types@.len() > 0 ==> (read matches Ok(cells) ==> (r is Ok <==> forall|t: int, d: int|
            0 <= t < types@.len() && 0 <= d < ddl::decls_in(types@[t].ddl@).len()
                ==> probe::in_order(
                #[trigger] ddl::decls_in(types@[t].ddl@)[d],
                probe::stored_types(value::views(cells@)),
                schema::texts(waived@),
            ))),
{
    if let Ok(cells) = read {
        probe::certified_means_waived_or_declared_alike(
            types@,
            probe::stored_types(value::views(cells@)),
            schema::texts(waived@),
            types@.len() as int,
        );
    }
}

/// What is stored is found under its name in lower case: the declaration of
/// the last text cell that has one.
pub proof fn stored_declarations_are_found_by_name(
    cells: Vec<Value>,
    stored: TypeIndex,
    wanted: &str,
    found: Option<&TypeDecl>,
)
    requires
        call_ensures(probe::stored_declarations, (cells,), stored),
        call_ensures(TypeIndex::get, (&stored, wanted), found),
    ensures
        found matches Some(d) ==> text::in_lower_case(d@.name) == wanted@,
        found is None <==> forall|i: int|
            0 <= i < probe::declarations_in(value::views(cells@), cells@.len() as int).len()
                ==> text::in_lower_case(
                (#[trigger] probe::declarations_in(value::views(cells@), cells@.len() as int)[i]).name,
            ) != wanted@,
{
    let decls = probe::declarations_in(value::views(cells@), cells@.len() as int);
    assert(value::views(cells@).len() == cells@.len());
    lemma_indexed_by_name(decls, wanted@);
    assert forall|i: int| 0 <= i < decls.len() && found is None implies text::in_lower_case(
        (#[trigger] decls[i]).name,
    ) != wanted@ by {
        ddl::index_keeps_the_last(decls, i);
    }
}

proof fn lemma_indexed_by_name(decls: Seq<TypeDeclView>, key: Seq<char>)
    ensures
        ddl::indexed(decls).contains_key(key) ==> text::in_lower_case(ddl::indexed(decls)[key].name)
            == key,
        ddl::indexed(decls).contains_key(key) ==> exists|i: int|
            0 <= i < decls.len() && text::in_lower_case((#[trigger] decls[i]).name) == key,
    decreases decls.len(),
{
    if decls.len() > 0 {
        let front = decls.drop_last();
        lemma_indexed_by_name(front, key);
        if text::in_lower_case(decls.last().name) == key {
            assert(text::in_lower_case(decls[decls.len() - 1].name) == key);
        } else if ddl::indexed(front).contains_key(key) {
            let i = choose|i: int|
                0 <= i < front.len() && text::in_lower_case((#[trigger] front[i]).name) == key;
            assert(text::in_lower_case(decls[i].name) == key);
        }
    }
}

} // verus!
