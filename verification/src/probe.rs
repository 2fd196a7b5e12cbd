//! Refusing a database whose stored type declarations are not those that the
//! values will be written and read with.
//!
//! Tags and fields are positions, and a record says nothing of what it was
//! written as, so a row that was written under another declaration is read
//! wrongly and in silence. The database keeps its declarations and can be
//! asked for them.

use vstd::prelude::*;

use crate::error::TursoError;
use crate::text;
use crate::text::same_text;
use crate::union::ddl;
use crate::union::ddl::{
    check_declarations, index_by_name, parse_create_types, DeclarationDrift, DriftView, TypeDecl,
    TypeDeclView, TypeIndex,
};
use crate::union::schema;
use crate::value;
use crate::value::{Value, ValueView};

verus! {

/// The query for the stored declarations: one text to a row.
pub const STORED_TYPES_SQL: &'static str = "SELECT sql FROM sqlite_turso_types";

/// A type that values will be bound as, with its declaration.
#[derive(Debug, Clone)]
pub struct DeclaredType {
    /// The Rust type, for the message.
    pub rust_type: &'static str,
    /// The `CREATE TYPE` statements that it stands for.
    pub ddl: String,
}

/// A database whose declarations are not the expected ones.
#[derive(Debug)]
pub struct TypeDriftError {
    /// For each Rust type that disagreed, what was found.
    pub drift: Vec<(&'static str, DeclarationDrift)>,
}

impl View for TypeDriftError {
    type V = Seq<(Seq<char>, DriftView)>;

    open spec fn view(&self) -> Seq<(Seq<char>, DriftView)> {
        Seq::new(self.drift@.len(), |i: int| (self.drift@[i].0@, self.drift@[i].1@))
    }
}

/// Why a database could not be certified.
#[derive(Debug)]
pub enum TypeCheckError {
    /// Its declarations are not the expected ones.
    Drift(TypeDriftError),
    /// It could not be asked for them.
    Read(TursoError),
}

// ---------------------------------------------------------------------------
// What is stored
// ---------------------------------------------------------------------------

/// The declarations in the first `n` cells. What is not text declares nothing.
pub open spec fn declarations_in(cells: Seq<ValueView>, n: int) -> Seq<TypeDeclView>
    decreases n,
{
    if n <= 0 {
        Seq::empty()
    } else {
        declarations_in(cells, n - 1) + (match cells[n - 1] {
            ValueView::Text(sql) => ddl::decls_in(sql),
            _ => Seq::empty(),
        })
    }
}

/// The stored declarations, by name.
pub open spec fn stored_types(cells: Seq<ValueView>) -> Map<Seq<char>, TypeDeclView> {
    ddl::indexed(declarations_in(cells, cells.len() as int))
}

/// The declarations that the query's rows hold, by name.
pub fn stored_declarations(cells: Vec<Value>) -> (stored: TypeIndex)
    ensures
        stored@ == stored_types(value::views(cells@)),
{
    let ghost all = value::views(cells@);
    let mut decls: Vec<TypeDecl> = Vec::new();
    assert(ddl::decl_views(decls@) =~= declarations_in(all, 0));
    for cell in it: cells
        invariant
            all == value::views(it.seq()),
            ddl::decl_views(decls@) == declarations_in(all, it.index() as int),
    {
        assert(all[it.index() as int] == cell@);
        match cell {
            Value::Text(sql) => {
                let mut more: Vec<TypeDecl> = parse_create_types(sql.as_str());
                let ghost before = decls@;
                let ghost added = more@;
                decls.append(&mut more);
                assert(ddl::decl_views(decls@) =~= ddl::decl_views(before) + ddl::decl_views(
                    added,
                ));
            },
            _ => {
                assert(declarations_in(all, it.index() as int) + Seq::<TypeDeclView>::empty()
                    =~= declarations_in(all, it.index() as int));
            },
        }
    }
    index_by_name(decls)
}

// ---------------------------------------------------------------------------
// The check
// ---------------------------------------------------------------------------

/// The missing types that are not waived.
pub open spec fn missing_kept(missing: Seq<Seq<char>>, waived: Seq<Seq<char>>) -> Seq<Seq<char>>
    decreases missing.len(),
{
    if missing.len() == 0 {
        Seq::empty()
    } else {
        let front = missing_kept(missing.drop_last(), waived);
        if waived.contains(missing.last()) {
            front
        } else {
            front.push(missing.last())
        }
    }
}

/// The differing types that are not waived.
pub open spec fn differs_kept(
    differs: Seq<(Seq<char>, Seq<char>, Seq<char>)>,
    waived: Seq<Seq<char>>,
) -> Seq<(Seq<char>, Seq<char>, Seq<char>)>
    decreases differs.len(),
{
    if differs.len() == 0 {
        Seq::empty()
    } else {
        let front = differs_kept(differs.drop_last(), waived);
        if waived.contains(differs.last().0) {
            front
        } else {
            front.push(differs.last())
        }
    }
}

/// What was found, without what is waived.
pub open spec fn without_waived(drift: DriftView, waived: Seq<Seq<char>>) -> DriftView {
    DriftView {
        missing: missing_kept(drift.missing, waived),
        differs: differs_kept(drift.differs, waived),
    }
}

/// What is found of the first `n` types: those that disagree, in order, each
/// with what is not waived of it.
pub open spec fn findings(
    types: Seq<DeclaredType>,
    stored: Map<Seq<char>, TypeDeclView>,
    waived: Seq<Seq<char>>,
    n: int,
) -> Seq<(Seq<char>, DriftView)>
    decreases n,
{
    if n <= 0 {
        Seq::empty()
    } else {
        let front = findings(types, stored, waived, n - 1);
        let drift = without_waived(
            ddl::drift_of(ddl::decls_in(types[n - 1].ddl@), stored),
            waived,
        );
        if drift.clean() {
            front
        } else {
            front.push((types[n - 1].rust_type@, drift))
        }
    }
}

fn is_waived(name: &str, waived: &[&str]) -> (yes: bool)
    ensures
        yes == schema::texts(waived@).contains(name@),
{
    let mut i: usize = 0;
    while i < waived.len()
        invariant
            i <= waived@.len(),
            forall|k: int| 0 <= k < i ==> schema::texts(waived@)[k] != name@,
        decreases waived@.len() - i,
    {
        assert(schema::texts(waived@)[i as int] == waived@[i as int]@);
        if same_text(waived[i], name) {
            return true;
        }
        i = i + 1;
    }
    false
}

/// Takes what is waived out of what was found.
fn waive(drift: DeclarationDrift, waived: &[&str]) -> (kept: DeclarationDrift)
    ensures
        kept@ == without_waived(drift@, schema::texts(waived@)),
{
    let ghost names = schema::texts(waived@);
    let ghost found = drift@;
    let mut missing: Vec<String> = Vec::new();
    let mut differs: Vec<(String, String, String)> = Vec::new();
    assert(found.missing.take(0) =~= Seq::empty());
    assert((DeclarationDrift { missing, differs })@.missing =~= missing_kept(
        found.missing.take(0),
        names,
    ));
    for name in it: drift.missing
        invariant
            names == schema::texts(waived@),
            found.missing == Seq::new(it.seq().len(), |i: int| it.seq()[i]@),
            Seq::new(missing@.len(), |i: int| missing@[i]@) == missing_kept(
                found.missing.take(it.index() as int),
                names,
            ),
    {
        let ghost before = missing@;
        assert(found.missing[it.index() as int] == name@);
        assert(found.missing.take(it.index() as int + 1).drop_last() =~= found.missing.take(
            it.index() as int,
        ));
        if !is_waived(name.as_str(), waived) {
            missing.push(name);
            assert(Seq::new(missing@.len(), |i: int| missing@[i]@) =~= Seq::new(
                before.len(),
                |i: int| before[i]@,
            ).push(name@));
        }
    }
    assert(found.missing.take(found.missing.len() as int) =~= found.missing);
    assert(found.differs.take(0) =~= Seq::empty());
    assert(Seq::new(differs@.len(), |i: int| (differs@[i].0@, differs@[i].1@, differs@[i].2@))
        =~= differs_kept(found.differs.take(0), names));
    for entry in it: drift.differs
        invariant
            names == schema::texts(waived@),
            found.differs == Seq::new(
                it.seq().len(),
                |i: int| (it.seq()[i].0@, it.seq()[i].1@, it.seq()[i].2@),
            ),
            Seq::new(differs@.len(), |i: int| (differs@[i].0@, differs@[i].1@, differs@[i].2@))
                == differs_kept(found.differs.take(it.index() as int), names),
    {
        let ghost before = differs@;
        assert(found.differs[it.index() as int] == (entry.0@, entry.1@, entry.2@));
        assert(found.differs.take(it.index() as int + 1).drop_last() =~= found.differs.take(
            it.index() as int,
        ));
        if !is_waived(entry.0.as_str(), waived) {
            differs.push(entry);
            assert(Seq::new(
                differs@.len(),
                |i: int| (differs@[i].0@, differs@[i].1@, differs@[i].2@),
            ) =~= Seq::new(before.len(), |i: int| (before[i].0@, before[i].1@, before[i].2@)).push(
                (entry.0@, entry.1@, entry.2@),
            ));
        }
    }
    assert(found.differs.take(found.differs.len() as int) =~= found.differs);
    let kept = DeclarationDrift { missing, differs };
    assert(kept@ =~= without_waived(found, names));
    kept
}

/// Checks types against what a database stores. `read` is the one column of
/// the answer to [`STORED_TYPES_SQL`], and `waived` names the types whose
/// stored declaration is known to differ.
///
/// Without any types there is nothing to ask the database.
pub fn verify_declared_types(
    types: &[DeclaredType],
    read: Result<Vec<Value>, TursoError>,
    waived: &[&str],
) -> (r: Result<(), TypeCheckError>)
    ensures
        types@.len() == 0 ==> r is Ok,
        types@.len() > 0 ==> match read {
            Err(e) => r == Err::<(), _>(TypeCheckError::Read(e)),
            Ok(cells) => {
                let found = findings(
                    types@,
                    stored_types(value::views(cells@)),
                    schema::texts(waived@),
                    types@.len() as int,
                );
                match r {
                    Ok(_) => found.len() == 0,
                    Err(TypeCheckError::Drift(e)) => found.len() > 0 && e@ == found,
                    Err(TypeCheckError::Read(_)) => false,
                }
            },
        },
{
    if types.len() == 0 {
        return Ok(());
    }
    let stored: TypeIndex = match read {
        Ok(cells) => stored_declarations(cells),
        Err(e) => {
            return Err(TypeCheckError::Read(e));
        },
    };
    let ghost names = schema::texts(waived@);
    let mut error = TypeDriftError { drift: Vec::new() };
    assert(error@ =~= findings(types@, stored@, names, 0));
    let mut i: usize = 0;
    while i < types.len()
        invariant
            i <= types@.len(),
            names == schema::texts(waived@),
            error@ == findings(types@, stored@, names, i as int),
        decreases types@.len() - i,
    {
        let drift: DeclarationDrift = waive(
            check_declarations(types[i].ddl.as_str(), &stored),
            waived,
        );
        let ghost before = error@;
        if !drift.is_empty() {
            let ghost finding = (types@[i as int].rust_type@, drift@);
            error.drift.push((types[i].rust_type, drift));
            assert(error@ =~= before.push(finding));
        }
        i = i + 1;
    }
    assert(error@.len() == error.drift@.len());
    if error.drift.len() == 0 {
        Ok(())
    } else {
        Err(TypeCheckError::Drift(error))
    }
}

// ---------------------------------------------------------------------------
// In words
// ---------------------------------------------------------------------------

/// The lines on the findings from `i` on.
pub open spec fn finding_lines(drift: Seq<(Seq<char>, DriftView)>, i: int) -> Seq<char>
    decreases drift.len() - i,
{
    if i < 0 || i >= drift.len() {
        Seq::empty()
    } else {
        drift[i].0 + ":\n"@ + (ddl::missing_lines(drift[i].1.missing, 0) + ddl::differing_lines(
            drift[i].1.differs,
            0,
        )) + finding_lines(drift, i + 1)
    }
}

/// The error in words: what disagrees, and what that means.
pub open spec fn drift_text(drift: Seq<(Seq<char>, DriftView)>) -> Seq<char> {
    "this database's composite type declarations do not match this build's:\n"@ + finding_lines(
        drift,
        0,
    )
        + "Every UNION tag and STRUCT field is positional, so reading these rows with this build's layout would silently return wrong values rather than fail. Either run the migration that redeclares the types, or rebuild the database."@
}

impl TypeDriftError {
    /// The error in words.
    pub fn message(&self) -> (lines: String)
        ensures
            lines@ == drift_text(self@),
    {
        let mut lines: String = String::new();
        lines.append("this database's composite type declarations do not match this build's:\n");
        let ghost head = lines@;
        let ghost drift = self@;
        assert(head
            =~= "this database's composite type declarations do not match this build's:\n"@);
        let mut i: usize = 0;
        while i < self.drift.len()
            invariant
                i <= self.drift@.len(),
                drift == self@,
                lines@ + finding_lines(drift, i as int) == head + finding_lines(drift, 0),
            decreases self.drift@.len() - i,
        {
            let ghost before = lines@;
            lines.append(self.drift[i].0);
            lines.append(":\n");
            let finding: String = self.drift[i].1.describe();
            lines.append(finding.as_str());
            assert(lines@ + finding_lines(drift, i + 1) =~= before + finding_lines(
                drift,
                i as int,
            ));
            i = i + 1;
        }
        assert(lines@ =~= head + finding_lines(drift, 0));
        lines.append(
            "Every UNION tag and STRUCT field is positional, so reading these rows with this build's layout would silently return wrong values rather than fail. Either run the migration that redeclares the types, or rebuild the database.",
        );
        lines
    }
}

impl TypeCheckError {
    /// The error in words.
    pub fn message(&self) -> (line: String)
        ensures
            match *self {
                TypeCheckError::Drift(drift) => line@ == drift_text(drift@),
                TypeCheckError::Read(e) => line@ == "reading sqlite_turso_types: "@ + e.message@,
            },
    {
        match self {
            TypeCheckError::Drift(drift) => drift.message(),
            TypeCheckError::Read(e) => {
                let mut line: String = "reading sqlite_turso_types: ".to_owned();
                line.append(e.message.as_str());
                line
            },
        }
    }
}

// ---------------------------------------------------------------------------
// What a certified database promises
// ---------------------------------------------------------------------------

/// Whether a declaration is stored under its name with the same layout.
pub open spec fn declared_alike(
    decl: TypeDeclView,
    stored: Map<Seq<char>, TypeDeclView>,
) -> bool {
    let key = text::in_lower_case(decl.name);
    stored.contains_key(key) && ddl::canonical_text(stored[key]) == ddl::canonical_text(decl)
}

/// Whether a declaration is waived or stored with the same layout.
pub open spec fn in_order(
    decl: TypeDeclView,
    stored: Map<Seq<char>, TypeDeclView>,
    waived: Seq<Seq<char>>,
) -> bool {
    waived.contains(decl.name) || declared_alike(decl, stored)
}

proof fn lemma_clean_but_for_waived(
    decls: Seq<TypeDeclView>,
    stored: Map<Seq<char>, TypeDeclView>,
    waived: Seq<Seq<char>>,
)
    ensures
        without_waived(ddl::drift_of(decls, stored), waived).clean() <==> forall|d: int|
            0 <= d < decls.len() ==> in_order(#[trigger] decls[d], stored, waived),
    decreases decls.len(),
{
    if decls.len() > 0 {
        let front = decls.drop_last();
        let before = ddl::drift_of(front, stored);
        let drift = ddl::drift_of(decls, stored);
        lemma_clean_but_for_waived(front, stored, waived);
        assert(forall|d: int| 0 <= d < front.len() ==> front[d] == #[trigger] decls[d]);
        assert(forall|d: int| 0 <= d < front.len() ==> decls[d] == #[trigger] front[d]);
        assert(decls.last() == decls[decls.len() - 1]);
        if drift.missing.len() > before.missing.len() {
            assert(drift.missing.drop_last() =~= before.missing);
        }
        if drift.differs.len() > before.differs.len() {
            assert(drift.differs.drop_last() =~= before.differs);
        }
    }
}

/// A database is certified for the first `n` types exactly where each of their
/// declarations is waived or is stored with the layout that values are written
/// and read with. What else it stores does not count.
pub proof fn certified_means_waived_or_declared_alike(
    types: Seq<DeclaredType>,
    stored: Map<Seq<char>, TypeDeclView>,
    waived: Seq<Seq<char>>,
    n: int,
)
    requires
        0 <= n <= types.len(),
    ensures
        findings(types, stored, waived, n).len() == 0 <==> forall|t: int, d: int|
            0 <= t < n && 0 <= d < ddl::decls_in(types[t].ddl@).len() ==> in_order(
                #[trigger] ddl::decls_in(types[t].ddl@)[d],
                stored,
                waived,
            ),
    decreases n,
{
    if n > 0 {
        let last = ddl::decls_in(types[n - 1].ddl@);
        certified_means_waived_or_declared_alike(types, stored, waived, n - 1);
        lemma_clean_but_for_waived(last, stored, waived);
        assert(forall|d: int|
            0 <= d < last.len() ==> last[d] == #[trigger] ddl::decls_in(types[n - 1].ddl@)[d]);
        if findings(types, stored, waived, n).len() == 0 {
            assert forall|t: int, d: int|
                0 <= t < n && 0 <= d < ddl::decls_in(types[t].ddl@).len() implies in_order(
                #[trigger] ddl::decls_in(types[t].ddl@)[d],
                stored,
                waived,
            ) by {
                if t == n - 1 {
                    assert(in_order(last[d], stored, waived));
                }
            }
        }
    }
}

/// What is stored is what the text cells declare, in their order: one more
/// cell adds its own declarations behind the others where it is text, and
/// nothing where it is not.
pub proof fn stored_types_are_those_of_the_text_cells(cells: Seq<ValueView>, next: ValueView)
    ensures
        declarations_in(Seq::empty(), 0) == Seq::<TypeDeclView>::empty(),
        declarations_in(cells.push(next), cells.len() as int + 1) == (match next {
            ValueView::Text(sql) => declarations_in(cells, cells.len() as int) + ddl::decls_in(sql),
            _ => declarations_in(cells, cells.len() as int),
        }),
        stored_types(cells) == ddl::indexed(declarations_in(cells, cells.len() as int)),
{
    let n = cells.len() as int;
    lemma_declarations_agree(cells, cells.push(next), n);
    assert(cells.push(next)[n] == next);
    assert(declarations_in(cells, n) + Seq::<TypeDeclView>::empty() =~= declarations_in(cells, n));
}

proof fn lemma_declarations_agree(cells: Seq<ValueView>, more: Seq<ValueView>, n: int)
    requires
        n <= cells.len() <= more.len(),
        forall|i: int| 0 <= i < n ==> cells[i] == more[i],
    ensures
        declarations_in(cells, n) == declarations_in(more, n),
    decreases n,
{
    if n > 0 {
        lemma_declarations_agree(cells, more, n - 1);
    }
}

/// Waiving takes out what is waived, by its exact name, and keeps the rest in
/// order. Waiving nothing changes nothing.
pub proof fn waiving_keeps_the_rest(drift: DriftView, waived: Seq<Seq<char>>)
    ensures
        without_waived(drift, waived).missing == drift.missing.filter(
            |name: Seq<char>| !waived.contains(name),
        ),
        without_waived(drift, waived).differs == drift.differs.filter(
            |d: (Seq<char>, Seq<char>, Seq<char>)| !waived.contains(d.0),
        ),
        waived.len() == 0 ==> without_waived(drift, waived) == drift,
{
    lemma_missing_kept(drift.missing, waived);
    lemma_differs_kept(drift.differs, waived);
    if waived.len() == 0 {
        assert(without_waived(drift, waived) =~= drift);
    }
}

proof fn lemma_missing_kept(missing: Seq<Seq<char>>, waived: Seq<Seq<char>>)
    ensures
        missing_kept(missing, waived) == missing.filter(
            |name: Seq<char>| !waived.contains(name),
        ),
        waived.len() == 0 ==> missing_kept(missing, waived) == missing,
    decreases missing.len(),
{
    reveal(Seq::filter);
    if missing.len() > 0 {
        lemma_missing_kept(missing.drop_last(), waived);
        assert(missing.drop_last().push(missing.last()) =~= missing);
    } else {
        assert(missing =~= Seq::empty());
    }
}

proof fn lemma_differs_kept(
    differs: Seq<(Seq<char>, Seq<char>, Seq<char>)>,
    waived: Seq<Seq<char>>,
)
    ensures
        differs_kept(differs, waived) == differs.filter(
            |d: (Seq<char>, Seq<char>, Seq<char>)| !waived.contains(d.0),
        ),
        waived.len() == 0 ==> differs_kept(differs, waived) == differs,
    decreases differs.len(),
{
    reveal(Seq::filter);
    if differs.len() > 0 {
        lemma_differs_kept(differs.drop_last(), waived);
        assert(differs.drop_last().push(differs.last()) =~= differs);
    } else {
        assert(differs =~= Seq::empty());
    }
}

/// Findings are in the order of the types. A type adds one, under its own
/// name, exactly where something is found of it that is not waived.
pub proof fn findings_are_in_the_order_of_the_types(
    types: Seq<DeclaredType>,
    stored: Map<Seq<char>, TypeDeclView>,
    waived: Seq<Seq<char>>,
    n: int,
)
    requires
        0 <= n < types.len(),
    ensures
        findings(types, stored, waived, 0).len() == 0,
        ({
            let before = findings(types, stored, waived, n);
            let after = findings(types, stored, waived, n + 1);
            let drift = without_waived(ddl::drift_of(ddl::decls_in(types[n].ddl@), stored), waived);
            if drift.missing.len() + drift.differs.len() == 0 {
                after == before
            } else {
                after == before.push((types[n].rust_type@, drift))
            }
        }),
{
}

/// The error in words names each type on a line of its own, with what was
/// found of it right behind, in order, between two fixed sentences.
pub proof fn findings_are_told_type_by_type(
    drift: Seq<(Seq<char>, DriftView)>,
    name: Seq<char>,
    found: DriftView,
)
    ensures
        finding_lines(Seq::empty(), 0) == Seq::<char>::empty(),
        finding_lines(drift.push((name, found)), 0) == finding_lines(drift, 0) + (name + ":\n"@
            + ddl::missing_lines(found.missing, 0) + ddl::differing_lines(found.differs, 0)),
        drift_text(drift)
            == "this database's composite type declarations do not match this build's:\n"@
            + finding_lines(drift, 0)
            + "Every UNION tag and STRUCT field is positional, so reading these rows with this build's layout would silently return wrong values rather than fail. Either run the migration that redeclares the types, or rebuild the database."@,
{
    lemma_finding_lines_more(drift, name, found, 0);
}

proof fn lemma_finding_lines_more(
    drift: Seq<(Seq<char>, DriftView)>,
    name: Seq<char>,
    found: DriftView,
    i: int,
)
    requires
        0 <= i <= drift.len(),
    ensures
        finding_lines(drift.push((name, found)), i) == finding_lines(drift, i) + (name + ":\n"@
            + ddl::missing_lines(found.missing, 0) + ddl::differing_lines(found.differs, 0)),
    decreases drift.len() - i,
{
    let all = drift.push((name, found));
    let one = name + ":\n"@ + ddl::missing_lines(found.missing, 0) + ddl::differing_lines(
        found.differs,
        0,
    );
    if i < drift.len() {
        assert(all[i] == drift[i]);
        lemma_finding_lines_more(drift, name, found, i + 1);
    } else {
        assert(all[i] == (name, found));
        assert(finding_lines(all, i + 1) =~= Seq::empty());
    }
    assert(finding_lines(all, i) =~= finding_lines(drift, i) + one);
}

} // verus!
