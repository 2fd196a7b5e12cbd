use diesel_turso::statement_cache::{
    family_of, hash_of, CacheSize, StatementCache, MAX_CACHED_STATEMENTS, MAX_PROBATION_FAMILIES,
};

const A: &str = "SELECT id FROM t WHERE id = ?";
const B: &str = "SELECT name FROM t WHERE id = ?";

/// The verdict a typed `SELECT` or single-row `INSERT` carries.
const SAFE: bool = true;
/// The verdict on every `UPDATE`, every `ON CONFLICT … DO UPDATE`, every
/// variadic list, every multi-row insert and every literal alike.
const VETOED: bool = false;

/// A fixed `SET` list: one text, whatever the binds.
const UPDATE: &str = r#"UPDATE "t" SET "name" = ?, "n" = ? WHERE ("t"."id" = ?)"#;
/// `ON CONFLICT … DO UPDATE`, and note the `VALUES (?, ?)` that a
/// pattern-matching filter would mistake for a variadic run.
const UPSERT: &str = r#"INSERT INTO "t" ("id", "name") VALUES (?, ?) ON CONFLICT ("id") DO UPDATE SET "name" = ?"#;

fn in_list(n: usize) -> String {
    let list = vec!["?"; n].join(", ");
    format!("SELECT id FROM t WHERE id IN ({list})")
}

#[test]
fn admits_what_diesel_blesses_from_the_first_sighting() {
    let mut cache = StatementCache::default();
    assert!(
        cache.admit_statement(A, SAFE),
        "the first run is compiled into the cache"
    );
    assert!(
        cache.admit_statement(A, SAFE),
        "and every run after it reads from there"
    );
    assert!(
        cache.admit_statement(B, SAFE),
        "a different statement gets its own slot"
    );
    assert_eq!(cache.stats().admitted, 2);
    assert_eq!(cache.stats().hits, 1);
}

#[test]
fn admits_a_vetoed_update_on_its_second_sighting() {
    let mut cache = StatementCache::default();
    assert!(
        !cache.admit_statement(UPDATE, VETOED),
        "the first sighting proves nothing — it could be a format! text"
    );
    assert!(
        cache.admit_statement(UPDATE, VETOED),
        "the second is the recurrence that proves the text is bounded"
    );
    assert!(cache.admit_statement(UPDATE, VETOED), "and every one after it");
    assert_eq!(cache.stats().admitted, 1);
    assert_eq!(cache.stats().hits, 1);
}

#[test]
fn admits_an_upsert_despite_its_placeholder_run() {
    let mut cache = StatementCache::default();
    assert!(!cache.admit_statement(UPSERT, VETOED));
    assert!(cache.admit_statement(UPSERT, VETOED));
    assert_eq!(cache.stats().admitted, 1);
    assert_eq!(cache.stats().variadic_families, 0);
}

#[test]
fn an_in_list_costs_one_slot_however_many_lengths_it_has() {
    let mut cache = StatementCache::default();
    for n in 1..=100usize {
        let sql = in_list(n);
        for _ in 0..5 {
            cache.admit_statement(&sql, VETOED);
        }
        assert!(
            cache.stats().admitted <= 1,
            "after {n} lengths the cache still holds at most the one that \
             recurred before the call site was recognised"
        );
    }
    assert_eq!(
        cache.stats().variadic_families,
        1,
        "all hundred lengths were recognised as one call site"
    );
    // Nothing later gets in either: the family is closed for good.
    for n in [3, 17, 100] {
        assert!(!cache.admit_statement(&in_list(n), VETOED));
    }
    assert_eq!(cache.stats().admitted, 1);

    // A safe statement alongside them is unaffected.
    assert!(cache.admit_statement(A, SAFE));
}

#[test]
fn interleaved_in_list_lengths_never_get_in() {
    let mut cache = StatementCache::default();
    for round in 0..50 {
        for n in 1..=8usize {
            assert!(
                !cache.admit_statement(&in_list(n), VETOED),
                "round {round}, length {n}"
            );
        }
    }
    assert_eq!(cache.stats().admitted, 0);
}

#[test]
fn refuses_every_row_count_of_a_multi_row_insert() {
    let mut cache = StatementCache::default();
    for round in 0..20 {
        for rows in 1..=10usize {
            let tuples = vec!["(?, ?)"; rows].join(", ");
            let sql = format!(r#"INSERT INTO "t" ("id", "name") VALUES {tuples}"#);
            assert!(
                !cache.admit_statement(&sql, VETOED),
                "round {round}, {rows} rows"
            );
        }
    }
    assert_eq!(cache.stats().admitted, 0);
    assert_eq!(
        cache.stats().variadic_families,
        1,
        "every row count is one call site, not ten"
    );
}

#[test]
fn refuses_a_text_that_is_never_the_same_twice() {
    let mut cache = StatementCache::default();
    for i in 0..2_000 {
        assert!(!cache.admit_statement(&format!("SELECT * FROM t WHERE id = {i}"), VETOED));
    }
    assert_eq!(cache.stats().admitted, 0);
    assert!(
        cache.families.len() <= MAX_PROBATION_FAMILIES,
        "and probation stayed bounded rather than leaking one entry per call"
    );
    assert!(cache.probation_order.len() <= MAX_PROBATION_FAMILIES);
}

#[test]
fn admits_a_static_sql_literal_and_refuses_an_interpolated_one() {
    let mut cache = StatementCache::default();
    let literal = r#"SELECT "kind" & 3 FROM "t" WHERE "id" = ?"#;
    assert!(!cache.admit_statement(literal, VETOED));
    assert!(cache.admit_statement(literal, VETOED), "static text recurs");

    for i in 0..50 {
        let interpolated = format!(r#"SELECT "kind" & {i} FROM "t""#);
        assert!(!cache.admit_statement(&interpolated, VETOED));
    }
    assert_eq!(cache.stats().admitted, 1, "only the static one got in");
}

#[test]
fn question_marks_inside_a_literal_are_read_as_a_placeholder_run() {
    let a = "SELECT CAST('?' AS TEXT)";
    let b = "SELECT CAST('??' AS TEXT)";
    let c = "SELECT CAST('???' AS TEXT)";
    assert_eq!(family_of(a), family_of(b), "a and b share a family");
    assert_eq!(family_of(a), family_of(c), "a and c share a family");
    let mut cache = StatementCache::default();
    assert!(!cache.admit_statement(a, VETOED));
    assert!(!cache.admit_statement(b, VETOED));
    assert!(!cache.admit_statement(c, VETOED));
    assert!(
        !cache.admit_statement(a, VETOED),
        "a is refused even though it recurs"
    );
    assert_eq!(cache.stats().admitted, 0);
}

#[test]
fn stops_admitting_at_the_cap_and_says_so() {
    let mut cache = StatementCache::default();
    for i in 0..MAX_CACHED_STATEMENTS {
        assert!(cache.admit_statement(&format!("SELECT {i}"), SAFE));
    }
    assert_eq!(cache.stats().admitted, MAX_CACHED_STATEMENTS);
    assert_eq!(cache.stats().refused_at_cap, 0);

    // Past the cap nothing new gets in — however many times it runs.
    let beyond = "SELECT 'past the cap'";
    assert!(!cache.admit_statement(beyond, SAFE));
    assert!(!cache.admit_statement(beyond, SAFE));
    assert_eq!(cache.stats().admitted, MAX_CACHED_STATEMENTS);
    assert_eq!(
        cache.stats().refused_at_cap,
        2,
        "and every refusal is counted, because nothing else would show it"
    );
    assert!(cache.warned_at_cap, "the first one also logged, once");

    // Statements admitted before the cap keep their slot.
    assert!(cache.admit_statement("SELECT 0", SAFE));
}

#[test]
fn the_cap_bounds_the_recurrence_path_too() {
    let mut cache = StatementCache::default();
    for i in 0..MAX_CACHED_STATEMENTS {
        assert!(cache.admit_statement(&format!("SELECT {i}"), SAFE));
    }
    assert!(
        !cache.admit_statement(UPDATE, VETOED),
        "first sighting: probation"
    );
    assert!(
        !cache.admit_statement(UPDATE, VETOED),
        "recurs, but there is no room"
    );
    assert_eq!(cache.stats().refused_at_cap, 1);
}

#[test]
fn disabled_never_promotes() {
    let mut cache = StatementCache {
        size: CacheSize::Disabled,
        ..StatementCache::default()
    };
    assert!(!cache.admit_statement(A, SAFE));
    assert!(!cache.admit_statement(A, SAFE));
    assert_eq!(cache.stats().admitted, 0);
    assert!(
        cache.families.is_empty(),
        "disabled tracks nothing either — not even probation"
    );
    assert_eq!(cache.stats().uncached, 2);
}

#[test]
fn probation_is_bounded_by_its_cap() {
    let mut cache = StatementCache::default();
    // Each of these is a distinct text under a distinct family, exactly
    // as `format!("… WHERE id = {n}")` would produce.
    for n in 0..(MAX_PROBATION_FAMILIES * 2) {
        assert!(
            !cache.admit_statement(&format!("SELECT id FROM t{n} WHERE id = ?"), VETOED),
            "a text seen once is never admitted"
        );
    }
    assert!(
        cache.families.len() <= MAX_PROBATION_FAMILIES,
        "probation held {} families against a cap of {MAX_PROBATION_FAMILIES}",
        cache.families.len()
    );
    assert!(
        cache.probation_order.len() <= MAX_PROBATION_FAMILIES,
        "the insertion-order queue is bounded too, or it becomes the leak \
         the map no longer is"
    );
    assert_eq!(
        cache.stats().admitted,
        0,
        "and none of it got into Turso's cache"
    );
}

#[test]
fn an_evicted_family_is_re_learned_not_mis_remembered() {
    let mut cache = StatementCache::default();
    // Establish a variadic family: two different lengths of one IN list.
    assert!(!cache.admit_statement(&in_list(2), VETOED), "first sighting");
    assert!(
        !cache.admit_statement(&in_list(5), VETOED),
        "second, different, text"
    );
    assert_eq!(
        cache.stats().variadic_families,
        1,
        "the call site has been recognised as variadic"
    );

    // Age it out with unrelated traffic.
    for n in 0..(MAX_PROBATION_FAMILIES + 1) {
        cache.admit_statement(&format!("SELECT id FROM t{n} WHERE id = ?"), VETOED);
    }

    // The mark is gone, so the family starts over.
    assert!(
        !cache.admit_statement(&in_list(9), VETOED),
        "back to a first sighting"
    );
    assert!(
        cache.admit_statement(&in_list(9), VETOED),
        "and the second sighting of that same text is admitted, spending \
         the one slot the design says it may"
    );
    assert_eq!(cache.stats().admitted, 1);
}

#[test]
fn a_disabled_cache_admits_nothing() {
    let mut cache = StatementCache {
        size: CacheSize::Disabled,
        ..Default::default()
    };
    assert!(!cache.admit_statement(A, SAFE));
    assert!(!cache.admit_statement(A, SAFE));
    assert_eq!(cache.stats().admitted, 0);
    assert_eq!(cache.stats().uncached, 2);
    assert_eq!(
        cache.stats().hits,
        0,
        "a disabled cache cannot report hits, or the perf report would \
         show a cache that is not running as one that is"
    );
}

#[test]
fn family_groups_placeholder_runs_and_only_those() {
    assert_eq!(
        family_of(&in_list(3)),
        family_of(&in_list(7)),
        "two lengths of one IN list are one family"
    );
    assert_ne!(
        family_of(&in_list(3)),
        family_of(r#"SELECT id FROM other WHERE id IN (?, ?, ?)"#),
        "a different table is a different family"
    );
    assert_ne!(
        family_of(UPDATE),
        family_of(r#"UPDATE "t" SET "name" = ? WHERE ("t"."id" = ?)"#),
        "two independent SET slots are not one run: a narrower SET is a \
         different family, not a shorter list"
    );
    assert_eq!(
        family_of(UPSERT),
        family_of(UPSERT),
        "and the key is a function of the text alone"
    );
}

#[test]
fn a_text_under_its_own_hash_is_told_from_another() {
    let mut cache = StatementCache::default();
    assert!(!cache.admit_text(1, "SELECT ?", VETOED));
    // The same family, and another text.
    assert!(!cache.admit_text(2, "SELECT ?, ?", VETOED));
    assert!(!cache.admit_text(1, "SELECT ?", VETOED));
    assert_eq!(cache.stats().variadic_families, 1);
    assert_eq!(cache.stats().uncached, 3);
}

#[test]
fn switching_the_cache_off_keeps_what_it_holds() {
    let mut cache = StatementCache::default();
    assert!(cache.admit_statement(A, SAFE));
    cache.set_size(CacheSize::Disabled);
    assert!(!cache.admit_statement(A, SAFE));
    cache.set_size(CacheSize::Unbounded);
    assert!(cache.admit_statement(A, SAFE));
    assert_eq!(cache.stats().hits, 1);
    assert_eq!(cache.stats().uncached, 1);
}

#[test]
fn only_placeholder_runs_are_collapsed() {
    let families: Vec<u64> = [
        "SELECT a, b FROM t",
        "SELECT a,b FROM t",
        "SELECT a, b FROM t WHERE c = ?",
        "SELECT a, b FROM t WHERE c = ? OR d = ?",
    ]
    .iter()
    .map(|sql| family_of(sql))
    .collect();
    for i in 0..families.len() {
        for j in 0..i {
            assert_ne!(families[i], families[j], "{i} and {j}");
        }
    }
    assert_eq!(
        family_of("INSERT INTO t VALUES (?, ?), (?, ?)"),
        family_of("INSERT INTO t VALUES (?)")
    );
}

#[test]
fn each_text_is_hashed_for_itself() {
    assert_ne!(hash_of(A), hash_of(B));
    assert_eq!(hash_of(A), hash_of(&A.to_string()));
    let mut by_text = StatementCache::default();
    let mut by_hash = StatementCache::default();
    for sql in [A, B, A, B] {
        assert_eq!(
            by_text.admit_statement(sql, SAFE),
            by_hash.admit_text(hash_of(sql), sql, SAFE)
        );
    }
    assert_eq!(by_text.stats(), by_hash.stats());
}
