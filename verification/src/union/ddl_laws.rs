//! What holds of every script that declarations are read from: comments are
//! stripped once and for all, scripts are read one behind the other, and a
//! rendered declaration is read back.

use vstd::prelude::*;

use crate::text;
use crate::union::ddl;
use crate::union::ddl::{TypeDeclView, TypeKind};

verus! {

// ---------------------------------------------------------------------------
// Comments
// ---------------------------------------------------------------------------

/// Nothing in a stripped text is a comment.
proof fn lemma_stripped_twice(s: Seq<char>, i: int, in_string: bool)
    requires
        0 <= i <= s.len(),
    ensures
        ddl::stripped(ddl::stripped(s, i, in_string), 0, in_string) == ddl::stripped(
            s,
            i,
            in_string,
        ),
        ddl::stripped(s, i, in_string).len() > 0 && ddl::stripped(s, i, in_string)[0] == '-'
            ==> i < s.len() && s[i] == '-',
    decreases s.len() - i,
{
    if i < s.len() {
        if ddl::comment_at(s, i, in_string) {
            ddl::lemma_line_end(s, i + 1);
            assert(ddl::line_end(s, i) == ddl::line_end(s, i + 1));
            lemma_stripped_twice(s, ddl::line_end(s, i), in_string);
        } else {
            let next = if s[i] == '\'' {
                !in_string
            } else {
                in_string
            };
            let rest = ddl::stripped(s, i + 1, next);
            lemma_stripped_twice(s, i + 1, next);
            let first = seq![s[i]];
            ddl::lemma_stripped_shift(first, rest, 0, next);
            assert(!ddl::comment_at(first + rest, 0, in_string)) by {
                if ddl::comment_at(first + rest, 0, in_string) {
                    assert((first + rest)[1] == rest[0]);
                }
            }
            assert((first + rest)[0] == s[i]);
        }
    }
}

proof fn lemma_feeds_stay(s: Seq<char>, i: int, in_string: bool)
    requires
        0 <= i <= s.len(),
    ensures
        ddl::stripped(s, i, in_string).to_multiset().count('\n') == s.skip(
            i,
        ).to_multiset().count('\n'),
    decreases s.len() - i,
{
    broadcast use vstd::seq_lib::group_to_multiset_ensures;

    if i < s.len() {
        if ddl::comment_at(s, i, in_string) {
            ddl::lemma_line_end(s, i);
            ddl::lemma_line_end(s, i + 1);
            assert(ddl::line_end(s, i) == ddl::line_end(s, i + 1));
            let end = ddl::line_end(s, i);
            let note = s.subrange(i, end);
            lemma_feeds_stay(s, end, in_string);
            assert(s.skip(i) =~= note + s.skip(end));
            vstd::seq_lib::lemma_multiset_commutative(note, s.skip(end));
            assert(!note.contains('\n'));
            assert(note.to_multiset().count('\n') == 0);
        } else {
            let next = if s[i] == '\'' {
                !in_string
            } else {
                in_string
            };
            let first = seq![s[i]];
            lemma_feeds_stay(s, i + 1, next);
            assert(s.skip(i) =~= first + s.skip(i + 1));
            vstd::seq_lib::lemma_multiset_commutative(first, s.skip(i + 1));
            vstd::seq_lib::lemma_multiset_commutative(first, ddl::stripped(s, i + 1, next));
        }
    } else {
        assert(s.skip(i) =~= Seq::empty());
    }
}

/// Stripping comments twice changes nothing more than stripping them once, and
/// every line feed stays.
pub proof fn comments_are_stripped_once(sql: Seq<char>)
    ensures
        ddl::stripped(ddl::stripped(sql, 0, false), 0, false) == ddl::stripped(sql, 0, false),
        ddl::stripped(sql, 0, false).to_multiset().count('\n') == sql.to_multiset().count('\n'),
{
    lemma_stripped_twice(sql, 0, false);
    lemma_feeds_stay(sql, 0, false);
    assert(sql.skip(0) =~= sql);
}

// ---------------------------------------------------------------------------
// Behind a text
// ---------------------------------------------------------------------------

proof fn lemma_ident_end_shift(s: Seq<char>, t: Seq<char>, i: int)
    requires
        0 <= i <= t.len(),
    ensures
        ddl::ident_end(s + t, s.len() + i) == s.len() + ddl::ident_end(t, i),
    decreases t.len() - i,
{
    if i < t.len() {
        assert((s + t)[s.len() + i] == t[i]);
        if ddl::ident_char(t[i]) {
            lemma_ident_end_shift(s, t, i + 1);
        }
    }
}

proof fn lemma_closing_shift(s: Seq<char>, t: Seq<char>, i: int, depth: nat)
    requires
        0 <= i <= t.len(),
    ensures
        match ddl::closing(t, i, depth) {
            Some(end) => ddl::closing(s + t, s.len() + i, depth) == Some(s.len() + end),
            None => ddl::closing(s + t, s.len() + i, depth) is None,
        },
    decreases t.len() - i,
{
    if i < t.len() {
        assert((s + t)[s.len() + i] == t[i]);
        if t[i] == '(' {
            lemma_closing_shift(s, t, i + 1, depth + 1);
        } else if t[i] == ')' {
            if depth > 1 {
                lemma_closing_shift(s, t, i + 1, (depth - 1) as nat);
            }
        } else {
            lemma_closing_shift(s, t, i + 1, depth);
        }
    }
}

proof fn lemma_ident_after_shift(s: Seq<char>, t: Seq<char>, i: int)
    requires
        0 <= i <= t.len(),
    ensures
        match ddl::ident_after(t, i) {
            Some((word, after)) => i <= after <= t.len() && ddl::ident_after(s + t, s.len() + i)
                == Some((word, s.len() + after)),
            None => ddl::ident_after(s + t, s.len() + i) is None,
        },
{
    let start = ddl::ws_end(t, i);
    ddl::lemma_ws_end(t, i);
    ddl::lemma_ws_end_shift(s, t, i);
    lemma_ident_end_shift(s, t, start);
    ddl::lemma_ident_end(t, start);
    let end = ddl::ident_end(t, start);
    assert((s + t).subrange(s.len() + start, s.len() + end) =~= t.subrange(start, end));
}

proof fn lemma_group_after_shift(s: Seq<char>, t: Seq<char>, i: int)
    requires
        0 <= i <= t.len(),
    ensures
        match ddl::group_after(t, i) {
            Some((body, after)) => i <= after <= t.len() && ddl::group_after(s + t, s.len() + i)
                == Some((body, s.len() + after)),
            None => ddl::group_after(s + t, s.len() + i) is None,
        },
{
    let start = ddl::ws_end(t, i);
    ddl::lemma_ws_end(t, i);
    ddl::lemma_ws_end_shift(s, t, i);
    if start < t.len() {
        assert((s + t)[s.len() + start] == t[start]);
        lemma_closing_shift(s, t, start + 1, 1);
        ddl::lemma_closing(t, start + 1, 1);
        if let Some(end) = ddl::closing(t, start + 1, 1) {
            assert((s + t).subrange(s.len() + start + 1, s.len() + end) =~= t.subrange(
                start + 1,
                end,
            ));
        }
    }
}

/// A declaration is read the same behind another text.
proof fn lemma_decl_at_shift(s: Seq<char>, t: Seq<char>, i: int)
    requires
        0 <= i <= t.len(),
    ensures
        ddl::decl_at(s + t, s.len() + i) == ddl::decl_at(t, i),
{
    let all = s + t;
    let n = s.len() as int;
    lemma_ident_after_shift(s, t, i);
    if let Some(after_type) = ddl::after_word(t, i, "type"@) {
        lemma_ident_after_shift(s, t, after_type);
        if let Some((name, after_name)) = ddl::ident_after(t, after_type) {
            let start = ddl::ws_end(t, after_name);
            ddl::lemma_ws_end(t, after_name);
            ddl::lemma_ws_end_shift(s, t, after_name);
            if start < t.len() {
                assert(all[n + start] == t[start]);
            }
            lemma_group_after_shift(s, t, start);
            if let Some(after_params) = ddl::params_end(t, after_name) {
                lemma_ident_after_shift(s, t, after_params);
                if let Some(after_as) = ddl::after_word(t, after_params, "as"@) {
                    lemma_ident_after_shift(s, t, after_as);
                    if let Some((word, after_kind)) = ddl::ident_after(t, after_as) {
                        lemma_group_after_shift(s, t, after_kind);
                    }
                }
            }
        }
    }
}

/// Whether no identifier runs on behind `s`.
spec fn breaks_off(s: Seq<char>) -> bool {
    s.len() > 0 ==> !ddl::ident_char(s.last())
}

proof fn lemma_word_after_shift(s: Seq<char>, t: Seq<char>, i: int, word: Seq<char>)
    requires
        0 <= i,
        breaks_off(s),
    ensures
        match ddl::word_after(t, i, word) {
            Some(after) => ddl::word_after(s + t, s.len() + i, word) == Some(s.len() + after),
            None => ddl::word_after(s + t, s.len() + i, word) is None,
        },
    decreases t.len() + 1 - i,
{
    let all = s + t;
    let n = s.len() as int;
    if i + word.len() <= t.len() {
        assert(all.subrange(n + i, n + i + word.len()) =~= t.subrange(i, i + word.len()));
        if i > 0 {
            assert(all[n + i - 1] == t[i - 1]);
        } else if n > 0 {
            assert(all[n - 1] == s.last());
        }
        if i + word.len() < t.len() {
            assert(all[n + i + word.len()] == t[i + word.len()]);
        }
        assert(ddl::word_at(all, n + i, word) == ddl::word_at(t, i, word));
        if !ddl::word_at(t, i, word) {
            lemma_word_after_shift(s, t, i + 1, word);
        }
    }
}

/// Declarations are read the same behind a text that no identifier runs on
/// from.
proof fn lemma_decls_shift(s: Seq<char>, t: Seq<char>, i: int)
    requires
        0 <= i <= t.len(),
        breaks_off(s),
    ensures
        ddl::decls_from(s + t, s.len() + i) == ddl::decls_from(t, i),
    decreases t.len() - i,
{
    reveal_strlit("create");
    lemma_word_after_shift(s, t, i, "create"@);
    ddl::lemma_word_after(t, i, "create"@);
    if let Some(after) = ddl::word_after(t, i, "create"@) {
        lemma_decl_at_shift(s, t, after);
        lemma_decls_shift(s, t, after);
    }
}

// ---------------------------------------------------------------------------
// One script behind the other
// ---------------------------------------------------------------------------

/// Whether every parenthesis that is opened in `s` is closed there.
pub open spec fn parens_closed(s: Seq<char>) -> bool {
    forall|i: int|
        0 <= i < s.len() && #[trigger] s[i] == '(' ==> ddl::closing(s, i + 1, 1) is Some
}

/// What stands between two scripts, then the second.
spec fn followed(b: Seq<char>) -> Seq<char> {
    seq!['\n', ';', '\n'] + b
}

proof fn lemma_stripped_append(a: Seq<char>, t: Seq<char>, i: int, in_string: bool)
    requires
        0 <= i <= a.len(),
        !ddl::ends_in_string(a, i, in_string),
        t.len() > 0,
        t[0] == '\n',
    ensures
        ddl::stripped(a + t, i, in_string) == ddl::stripped(a, i, in_string) + ddl::stripped(
            t,
            0,
            false,
        ),
    decreases a.len() - i,
{
    let all = a + t;
    let n = a.len() as int;
    assert(all[n] == t[0]);
    if i == n {
        ddl::lemma_stripped_shift(a, t, 0, false);
        assert(ddl::stripped(a, i, in_string) + ddl::stripped(t, 0, false) =~= ddl::stripped(
            t,
            0,
            false,
        ));
    } else {
        assert(all[i] == a[i]);
        if i + 1 < n {
            assert(all[i + 1] == a[i + 1]);
        }
        if ddl::comment_at(a, i, in_string) {
            ddl::lemma_line_end(a, i + 1);
            assert(ddl::line_end(a, i) == ddl::line_end(a, i + 1));
            ddl::lemma_line_end_append(a, t, i);
            lemma_stripped_append(a, t, ddl::line_end(a, i), in_string);
        } else {
            let next = if a[i] == '\'' {
                !in_string
            } else {
                in_string
            };
            lemma_stripped_append(a, t, i + 1, next);
            assert(ddl::stripped(all, i, in_string) =~= ddl::stripped(a, i, in_string)
                + ddl::stripped(t, 0, false));
        }
    }
}

proof fn lemma_stripped_followed(b: Seq<char>)
    ensures
        ddl::stripped(followed(b), 0, false) == followed(ddl::stripped(b, 0, false)),
{
    let t = followed(b);
    let gap = seq!['\n', ';', '\n'];
    assert(t[0] == '\n' && t[1] == ';' && t[2] == '\n');
    ddl::lemma_stripped_shift(gap, b, 0, false);
    let rest = ddl::stripped(b, 0, false);
    assert(ddl::stripped(t, 2, false) == seq!['\n'] + rest);
    assert(ddl::stripped(t, 1, false) == seq![';'] + (seq!['\n'] + rest));
    assert(ddl::stripped(t, 0, false) == seq!['\n'] + (seq![';'] + (seq!['\n'] + rest)));
    assert(ddl::stripped(t, 0, false) =~= followed(rest));
}

/// In front of a line feed an identifier ends where the text ends.
proof fn lemma_ident_end_followed(a: Seq<char>, b: Seq<char>, i: int)
    requires
        0 <= i <= a.len(),
    ensures
        ddl::ident_end(a + followed(b), i) == ddl::ident_end(a, i),
    decreases a.len() - i,
{
    let all = a + followed(b);
    if i < a.len() {
        assert(all[i] == a[i]);
        if ddl::ident_char(a[i]) {
            lemma_ident_end_followed(a, b, i + 1);
        }
    } else {
        assert(all[i] == '\n');
    }
}

/// White space that ends a script runs up to the semicolon.
proof fn lemma_ws_end_followed(a: Seq<char>, b: Seq<char>, i: int)
    requires
        0 <= i <= a.len(),
    ensures
        ddl::ws_end(a, i) < a.len() ==> ddl::ws_end(a + followed(b), i) == ddl::ws_end(a, i),
        ddl::ws_end(a, i) >= a.len() ==> ddl::ws_end(a + followed(b), i) == a.len() + 1,
        (a + followed(b))[a.len() as int + 1] == ';',
    decreases a.len() - i,
{
    let all = a + followed(b);
    assert(all[a.len() as int] == '\n');
    assert(all[a.len() as int + 1] == ';');
    if i < a.len() {
        assert(all[i] == a[i]);
        if text::whitespace(a[i]) {
            lemma_ws_end_followed(a, b, i + 1);
        }
    } else {
        assert(ddl::ws_end(all, i + 1) == i + 1);
    }
}

proof fn lemma_ident_after_followed(a: Seq<char>, b: Seq<char>, i: int)
    requires
        0 <= i <= a.len(),
    ensures
        ddl::ident_after(a + followed(b), i) == ddl::ident_after(a, i),
        ddl::ident_after(a, i) matches Some((_, after)) ==> i <= after <= a.len(),
        ddl::ident_after(a + followed(b), a.len() as int + 1) is None,
{
    let all = a + followed(b);
    let start = ddl::ws_end(a, i);
    ddl::lemma_ws_end(a, i);
    lemma_ws_end_followed(a, b, i);
    if start < a.len() {
        lemma_ident_end_followed(a, b, start);
        ddl::lemma_ident_end(a, start);
        let end = ddl::ident_end(a, start);
        assert(all.subrange(start, end) =~= a.subrange(start, end));
    }
}

proof fn lemma_group_after_followed(a: Seq<char>, b: Seq<char>, i: int)
    requires
        0 <= i <= a.len(),
        parens_closed(a),
    ensures
        ddl::group_after(a + followed(b), i) == ddl::group_after(a, i),
        ddl::group_after(a, i) matches Some((_, after)) ==> i <= after <= a.len(),
{
    let all = a + followed(b);
    let start = ddl::ws_end(a, i);
    ddl::lemma_ws_end(a, i);
    lemma_ws_end_followed(a, b, i);
    if start < a.len() {
        assert(all[start] == a[start]);
        if a[start] == '(' {
            let none = Seq::<char>::empty();
            assert(ddl::closing(a, start + 1, 1) is Some);
            ddl::lemma_closing_inside(none, a, followed(b), start + 1, 1);
            assert(none + a + followed(b) =~= all);
            ddl::lemma_closing(a, start + 1, 1);
            let end = ddl::closing(a, start + 1, 1)->0;
            assert(all.subrange(start + 1, end) =~= a.subrange(start + 1, end));
        }
    }
}

/// A declaration is read the same whether or not another script follows.
proof fn lemma_decl_at_followed(a: Seq<char>, b: Seq<char>, i: int)
    requires
        0 <= i <= a.len(),
        parens_closed(a),
    ensures
        ddl::decl_at(a + followed(b), i) == ddl::decl_at(a, i),
{
    let all = a + followed(b);
    lemma_ident_after_followed(a, b, i);
    if let Some(after_type) = ddl::after_word(a, i, "type"@) {
        lemma_ident_after_followed(a, b, after_type);
        if let Some((name, after_name)) = ddl::ident_after(a, after_type) {
            let start = ddl::ws_end(a, after_name);
            ddl::lemma_ws_end(a, after_name);
            lemma_ws_end_followed(a, b, after_name);
            if start < a.len() {
                assert(all[start] == a[start]);
                lemma_group_after_followed(a, b, start);
                if let Some(after_params) = ddl::params_end(a, after_name) {
                    lemma_ident_after_followed(a, b, after_params);
                    if let Some(after_as) = ddl::after_word(a, after_params, "as"@) {
                        lemma_ident_after_followed(a, b, after_as);
                        if let Some((word, after_kind)) = ddl::ident_after(a, after_as) {
                            lemma_group_after_followed(a, b, after_kind);
                        }
                    }
                }
            } else {
                lemma_ident_after_followed(a, b, start);
                assert(ddl::ident_after(a, start) is None);
            }
        }
    }
}

proof fn lemma_word_after_followed(a: Seq<char>, b: Seq<char>, i: int)
    requires
        0 <= i <= a.len() + 3,
    ensures
        ddl::word_after(a + followed(b), i, "create"@) == match ddl::word_after(a, i, "create"@) {
            Some(after) => Some(after),
            None => ddl::word_after(a + followed(b), a.len() as int + 3, "create"@),
        },
    decreases a.len() + 3 - i,
{
    reveal_strlit("create");
    let word = "create"@;
    let all = a + followed(b);
    let n = a.len() as int;
    if i < n + 3 {
        lemma_word_after_followed(a, b, i + 1);
        if i + 6 <= n {
            assert(all.subrange(i, i + 6) =~= a.subrange(i, i + 6));
            if i > 0 {
                assert(all[i - 1] == a[i - 1]);
            }
            if i + 6 < n {
                assert(all[i + 6] == a[i + 6]);
            } else {
                assert(all[i + 6] == '\n');
            }
            assert(ddl::word_at(all, i, word) == ddl::word_at(a, i, word));
        } else {
            let k = if i < n {
                n
            } else {
                i
            };
            assert(all[k] == '\n' || all[k] == ';');
            if i + 6 <= all.len() {
                assert(all.subrange(i, i + 6)[k - i] == all[k]);
                assert(!text::same_ignoring_ascii_case(all.subrange(i, i + 6), word));
                assert(!ddl::word_at(all, i, word));
            } else if i + 1 <= n + 3 {
                assert(ddl::word_after(all, n + 3, word) is None);
            }
        }
    }
}

#[verifier::spinoff_prover]
#[verifier::rlimit(40)]
proof fn lemma_decls_followed(a: Seq<char>, b: Seq<char>, i: int)
    requires
        0 <= i <= a.len(),
        parens_closed(a),
    ensures
        ddl::decls_from(a + followed(b), i) == ddl::decls_from(a, i) + ddl::decls_from(b, 0),
    decreases a.len() - i,
{
    reveal_strlit("create");
    let all = a + followed(b);
    let head = a + seq!['\n', ';', '\n'];
    lemma_word_after_followed(a, b, i);
    ddl::lemma_word_after(a, i, "create"@);
    assert(all =~= head + b);
    lemma_decls_shift(head, b, 0);
    match ddl::word_after(a, i, "create"@) {
        Some(after) => {
            lemma_decl_at_followed(a, b, after);
            lemma_decls_followed(a, b, after);
            assert(ddl::decls_from(all, i) =~= ddl::decls_from(a, i) + ddl::decls_from(b, 0));
        },
        None => {
            assert(ddl::decls_from(all, i) == ddl::decls_from(all, a.len() as int + 3));
            assert(ddl::decls_from(all, i) =~= ddl::decls_from(a, i) + ddl::decls_from(b, 0));
        },
    }
}

/// Scripts are read one behind the other: two with a semicolon on a line of
/// its own between them give the declarations of the first, then those of the
/// second. The first ends outside a string literal, and closes every
/// parenthesis that it opens.
pub proof fn scripts_are_read_in_turn(a: Seq<char>, b: Seq<char>)
    requires
        !ddl::ends_in_string(a, 0, false),
        parens_closed(ddl::stripped(a, 0, false)),
    ensures
        ddl::decls_in(a + "\n;\n"@ + b) == ddl::decls_in(a) + ddl::decls_in(b),
{
    reveal_strlit("\n;\n");
    assert("\n;\n"@ =~= seq!['\n', ';', '\n']);
    assert(a + "\n;\n"@ + b =~= a + followed(b));
    lemma_stripped_append(a, followed(b), 0, false);
    lemma_stripped_followed(b);
    lemma_decls_followed(ddl::stripped(a, 0, false), ddl::stripped(b, 0, false), 0);
}

// ---------------------------------------------------------------------------
// What is rendered is read back
// ---------------------------------------------------------------------------

/// Whether a character is an ASCII letter or digit, or an underscore.
pub open spec fn plain_char(c: char) -> bool {
    'a' <= c <= 'z' || 'A' <= c <= 'Z' || '0' <= c <= '9' || c == '_'
}

/// Whether a text is made of ASCII letters, digits and underscores.
pub open spec fn plain(s: Seq<char>) -> bool {
    forall|i: int| 0 <= i < s.len() ==> plain_char(#[trigger] s[i])
}

/// Whether a member has a plain name, and a plain type or none.
pub open spec fn plain_member(member: (Seq<char>, Seq<char>)) -> bool {
    member.0.len() > 0 && plain(member.0) && plain(member.1)
}

/// Whether a declaration and its members have plain names, and the members
/// plain types or none.
pub open spec fn plain_decl(decl: TypeDeclView) -> bool {
    &&& decl.name.len() > 0 && plain(decl.name)
    &&& forall|i: int| 0 <= i < decl.members.len() ==> plain_member(#[trigger] decl.members[i])
}

proof fn lemma_plain_char(c: char)
    requires
        plain_char(c),
    ensures
        ddl::ident_char(c),
        !text::whitespace(c),
        c != ' ' && c != ',' && c != '(' && c != ')' && c != '-' && c != '\'',
{
}

proof fn lemma_piece_run(s: Seq<char>, i: int, to: int)
    requires
        0 <= i <= to <= s.len(),
        forall|k: int| i <= k < to ==> #[trigger] s[k] != ',' && s[k] != '(',
        to < s.len() ==> s[to] == ',',
    ensures
        ddl::piece_end(s, i, 0) == to,
    decreases to - i,
{
    if i < to {
        lemma_piece_run(s, i + 1, to);
    }
}

proof fn lemma_piece_end_shift(s: Seq<char>, t: Seq<char>, i: int, depth: nat)
    requires
        0 <= i <= t.len(),
    ensures
        ddl::piece_end(s + t, s.len() + i, depth) == s.len() + ddl::piece_end(t, i, depth),
    decreases t.len() - i,
{
    if i < t.len() {
        assert((s + t)[s.len() + i] == t[i]);
        if !(t[i] == ',' && depth == 0) {
            if t[i] == '(' {
                lemma_piece_end_shift(s, t, i + 1, depth + 1);
            } else if t[i] == ')' && depth > 0 {
                lemma_piece_end_shift(s, t, i + 1, (depth - 1) as nat);
            } else {
                lemma_piece_end_shift(s, t, i + 1, depth);
            }
        }
    }
}

pub(crate) proof fn lemma_members_shift(s: Seq<char>, t: Seq<char>, i: int)
    requires
        0 <= i <= t.len(),
    ensures
        ddl::members_of(s + t, s.len() + i) == ddl::members_of(t, i),
    decreases t.len() - i,
{
    lemma_piece_end_shift(s, t, i, 0);
    ddl::lemma_piece_end(t, i, 0);
    let end = ddl::piece_end(t, i, 0);
    assert((s + t).subrange(s.len() + i, s.len() + end) =~= t.subrange(i, end));
    if end < t.len() {
        lemma_members_shift(s, t, end + 1);
    }
}

/// One word is squeezed to itself.
proof fn lemma_squeezed_word(s: Seq<char>)
    requires
        s.len() > 0,
        plain(s),
    ensures
        ddl::squeezed(s, 0) == s,
{
    let n = s.len() as int;
    assert forall|k: int| 0 <= k < n implies !text::whitespace(#[trigger] s[k]) by {
        lemma_plain_char(s[k]);
    }
    ddl::lemma_word_run(s, 0, n);
    assert(ddl::squeezed(s, n) =~= Seq::empty());
    assert(s.subrange(0, n) + Seq::<char>::empty() =~= s);
}

/// A rendered member is read back, whatever white space stands before it.
proof fn lemma_member_reads_back(lead: Seq<char>, member: (Seq<char>, Seq<char>))
    requires
        ddl::blank(lead),
        plain_member(member),
    ensures
        ddl::member_of(lead + ddl::member_text(member)) == Some(member),
{
    let (name, ty) = member;
    let space = seq![' '];
    let none = Seq::<char>::empty();
    assert forall|k: int| 0 <= k < name.len() implies !text::whitespace(#[trigger] name[k]) by {
        lemma_plain_char(name[k]);
    }
    let raw = lead + ddl::member_text(member);
    if ty.len() > 0 {
        lemma_plain_char(ty[0]);
        lemma_plain_char(ty[ty.len() - 1]);
        ddl::member_spacing_does_not_count(lead, name, space, ty, none);
        assert(lead + name + space + ty + none =~= raw);
        lemma_squeezed_word(ty);
    } else {
        let p = lead.len() as int;
        let q = p + name.len();
        assert(raw.len() == q + 1);
        assert forall|k: int| 0 <= k < p implies text::whitespace(#[trigger] raw[k]) by {
            assert(raw[k] == lead[k]);
        }
        assert(raw[p] == name[0]);
        ddl::lemma_blank_run(raw, 0, p);
        assert(raw[q] == ' ');
        assert(raw[q - 1] == name[name.len() - 1]);
        ddl::lemma_trim_run(raw, raw.len() as int, q);
        assert(ddl::trimmed(raw) =~= name);
        ddl::lemma_word_run(name, 0, name.len() as int);
        assert(ty =~= none);
    }
}

/// Whether a character can stand in rendered members.
spec fn body_char(c: char) -> bool {
    plain_char(c) || c == ' ' || c == ','
}

proof fn lemma_members_text(members: Seq<(Seq<char>, Seq<char>)>, i: int)
    requires
        0 <= i <= members.len(),
        forall|k: int| 0 <= k < members.len() ==> plain_member(#[trigger] members[k]),
    ensures
        forall|k: int|
            0 <= k < ddl::members_text(members, i).len() ==> body_char(
                #[trigger] ddl::members_text(members, i)[k],
            ),
        i < members.len() ==> ddl::members_text(members, i).len() > 0 && plain_char(
            ddl::members_text(members, i)[0],
        ),
    decreases members.len() - i,
{
    if i < members.len() {
        lemma_members_text(members, i + 1);
        let line = ddl::members_text(members, i);
        let first = ddl::member_text(members[i]);
        let rest = ddl::members_text(members, i + 1);
        assert(plain_member(members[i]));
        assert forall|k: int| 0 <= k < first.len() implies body_char(#[trigger] first[k]) by {
            if k < members[i].0.len() {
                assert(first[k] == members[i].0[k]);
            } else if k > members[i].0.len() {
                assert(first[k] == members[i].1[k - members[i].0.len() - 1]);
            }
        }
        assert(line[0] == members[i].0[0]);
        assert forall|k: int| 0 <= k < line.len() implies body_char(#[trigger] line[k]) by {
            if k < first.len() {
                assert(line[k] == first[k]);
            } else if k >= first.len() + 2 {
                assert(line[k] == rest[k - first.len() - 2]);
            }
        }
    }
}

/// Rendered members are read back.
proof fn lemma_members_read_back(
    lead: Seq<char>,
    members: Seq<(Seq<char>, Seq<char>)>,
    i: int,
)
    requires
        0 <= i <= members.len(),
        ddl::blank(lead),
        forall|k: int| 0 <= k < members.len() ==> plain_member(#[trigger] members[k]),
        i == members.len() ==> lead.len() == 0,
    ensures
        ddl::members_of(lead + ddl::members_text(members, i), 0) == members.skip(i),
    decreases members.len() - i,
{
    let line = lead + ddl::members_text(members, i);
    if i == members.len() {
        assert(line.len() == 0);
        assert(line.subrange(0, 0) =~= line);
        assert(members.skip(i) =~= Seq::empty());
    } else {
        let first = ddl::member_text(members[i]);
        let n = lead.len() + first.len();
        assert(plain_member(members[i]));
        lemma_members_text(seq![members[i]], 0);
        assert(ddl::members_text(seq![members[i]], 0) == first);
        lemma_member_reads_back(lead, members[i]);
        assert forall|k: int| 0 <= k < n implies #[trigger] line[k] != ',' && line[k] != '(' by {
            if k < lead.len() {
                assert(line[k] == lead[k]);
            } else {
                let at = k - lead.len();
                assert(line[k] == first[at]);
                if at < members[i].0.len() {
                    assert(first[at] == members[i].0[at]);
                } else if at > members[i].0.len() {
                    assert(first[at] == members[i].1[at - members[i].0.len() - 1]);
                }
            }
        }
        assert(line.subrange(0, n as int) =~= lead + first);
        if i + 1 == members.len() {
            assert(line.len() == n);
            lemma_piece_run(line, 0, n as int);
            assert(members.skip(i) =~= seq![members[i]]);
            assert(ddl::members_of(line, 0) =~= seq![members[i]]);
        } else {
            let space = seq![' '];
            let head = lead + first + seq![','];
            let tail = space + ddl::members_text(members, i + 1);
            assert(line =~= head + tail);
            assert(line[n as int] == ',');
            lemma_piece_run(line, 0, n as int);
            lemma_members_read_back(space, members, i + 1);
            lemma_members_shift(head, tail, 0);
            assert(seq![members[i]] + members.skip(i + 1) =~= members.skip(i));
        }
    }
}

/// Whether between any two spaces that no comma stands before, a comma stands.
spec fn apart(t: Seq<char>) -> bool {
    forall|x: int, y: int|
        0 < x < y < t.len() && #[trigger] t[x] == ' ' && #[trigger] t[y] == ' ' && t[x - 1] != ','
            && t[y - 1] != ',' ==> t.subrange(x, y).contains(',')
}

proof fn lemma_members_apart(members: Seq<(Seq<char>, Seq<char>)>, i: int)
    requires
        0 <= i <= members.len(),
        forall|k: int| 0 <= k < members.len() ==> plain_member(#[trigger] members[k]),
    ensures
        apart(ddl::members_text(members, i) + seq![')']),
    decreases members.len() - i,
{
    let t = ddl::members_text(members, i) + seq![')'];
    if i < members.len() {
        let (name, ty) = members[i];
        let first = ddl::member_text(members[i]);
        let n = name.len() as int;
        let f = first.len() as int;
        assert(plain_member(members[i]));
        lemma_members_apart(members, i + 1);
        lemma_members_text(members, i + 1);
        let rest = ddl::members_text(members, i + 1) + seq![')'];
        assert forall|k: int| 0 <= k < f && k != n implies #[trigger] t[k] != ' ' by {
            if k < n {
                assert(t[k] == name[k]);
            } else {
                assert(t[k] == ty[k - n - 1]);
            }
        }
        if i + 1 < members.len() {
            assert(t =~= first + seq![',', ' '] + rest);
            assert(t[f] == ',' && t[f + 1] == ' ');
            assert(rest[0] == ddl::members_text(members, i + 1)[0]);
        }
        assert forall|x: int, y: int|
            0 < x < y < t.len() && #[trigger] t[x] == ' ' && #[trigger] t[y] == ' ' && t[x - 1]
                != ',' && t[y - 1] != ',' implies t.subrange(x, y).contains(',') by {
            if i + 1 == members.len() {
                assert(t.len() == f + 1);
            } else if y >= f + 2 {
                let b = y - f - 2;
                assert(t[y] == rest[b]);
                assert(b > 0);
                assert(t[y - 1] == rest[b - 1]);
                if x < f {
                    assert(t.subrange(x, y)[f - x] == ',');
                } else if x >= f + 2 {
                    let a = x - f - 2;
                    assert(t[x] == rest[a]);
                    assert(a > 0);
                    assert(t[x - 1] == rest[a - 1]);
                    assert(rest.subrange(a, b) =~= t.subrange(x, y));
                }
            }
        }
    }
}

/// Between members no declaration is read: it takes three words in a row.
proof fn lemma_no_decl_among_members(t: Seq<char>, p: int)
    requires
        0 <= p <= t.len(),
        apart(t),
        forall|k: int| 0 <= k < t.len() ==> body_char(#[trigger] t[k]) || t[k] == ')',
    ensures
        ddl::decl_at(t, p) is None,
{
    if ddl::decl_at(t, p) is Some {
        let q1 = ddl::ws_end(t, p);
        ddl::lemma_ws_end(t, p);
        ddl::lemma_ident_end(t, q1);
        let e1 = ddl::ident_end(t, q1);
        let q2 = ddl::ws_end(t, e1);
        ddl::lemma_ws_end(t, e1);
        ddl::lemma_ident_end(t, q2);
        let e2 = ddl::ident_end(t, q2);
        let q3 = ddl::ws_end(t, e2);
        ddl::lemma_ws_end(t, e2);
        ddl::lemma_ident_end(t, q3);
        assert(q1 < e1 && q2 < e2);
        assert(ddl::ident_char(t[e1 - 1]) && ddl::ident_char(t[e2 - 1]) && ddl::ident_char(t[q2]));
        assert(q2 > e1);
        assert(text::whitespace(t[e1]));
        assert(q3 < t.len() ==> t[q3] != '(');
        assert(ddl::params_end(t, e2) == Some(q3));
        assert(ddl::ws_end(t, q3) == q3);
        assert(ddl::ident_end(t, q3) > q3);
        assert(ddl::ident_char(t[q3]));
        assert(q3 > e2);
        assert(text::whitespace(t[e2]));
        assert(body_char(t[e1]) || t[e1] == ')');
        assert(body_char(t[e2]) || t[e2] == ')');
        assert(t[e1] == ' ' && t[e2] == ' ');
        assert(t.subrange(e1, e2).contains(','));
        let z = choose|z: int| 0 <= z < e2 - e1 && t.subrange(e1, e2)[z] == ',';
        assert(t[e1 + z] == ',');
        if e1 + z < q2 {
            assert(text::whitespace(t[e1 + z]));
        } else {
            assert(ddl::ident_char(t[e1 + z]));
        }
    }
}

proof fn lemma_body_closes(body: Seq<char>, i: int)
    requires
        0 <= i <= body.len(),
        forall|k: int| 0 <= k < body.len() ==> body_char(#[trigger] body[k]),
    ensures
        ddl::closing(body.push(')'), i, 1) == Some(body.len() as int),
    decreases body.len() - i,
{
    if i < body.len() {
        assert(body.push(')')[i] == body[i]);
        assert(body_char(body[i]));
        lemma_body_closes(body, i + 1);
    }
}

/// The parts of a rendered declaration behind its `CREATE`.
spec fn rendered_parts(decl: TypeDeclView) -> ddl::Spelling {
    ddl::Spelling {
        before_type: seq![' '],
        type_word: seq!['T', 'Y', 'P', 'E'],
        before_name: seq![' '],
        name: decl.name,
        before_as: seq![' '],
        as_word: seq!['A', 'S'],
        before_kind: seq![' '],
        kind_word: decl.kind.keyword(),
        before_body: Seq::empty(),
        body: ddl::members_text(decl.members, 0),
        rest: Seq::empty(),
    }
}

proof fn lemma_keyword(kind: TypeKind)
    ensures
        ddl::kind_of(text::in_lower_case(kind.keyword())) == Some(kind),
        kind.keyword().len() > 0,
        plain(kind.keyword()),
        forall|k: int|
            0 <= k < kind.keyword().len() ==> text::ascii_lower(#[trigger] kind.keyword()[k]) != 'e',
{
    reveal_strlit("STRUCT");
    reveal_strlit("struct");
    reveal_strlit("UNION");
    reveal_strlit("union");
    let word = kind.keyword();
    let low = word.map_values(|c: char| text::ascii_lower(c));
    assert(text::is_ascii(word));
    match kind {
        TypeKind::Struct => {
            assert(low =~= "struct"@);
        },
        TypeKind::Union => {
            assert(low =~= "union"@);
            assert("union"@[0] != "struct"@[0]);
        },
    }
}

proof fn lemma_plain_identifier(s: Seq<char>)
    requires
        s.len() > 0,
        plain(s),
    ensures
        ddl::identifier(s),
{
    assert forall|i: int| 0 <= i < s.len() implies ddl::ident_char(#[trigger] s[i])
        && !text::whitespace(s[i]) by {
        lemma_plain_char(s[i]);
    }
}

proof fn lemma_rendered_is_spelled(decl: TypeDeclView)
    requires
        plain_decl(decl),
    ensures
        ddl::decl_text(decl) == seq!['C', 'R', 'E', 'A', 'T', 'E'] + rendered_parts(decl).text(),
        rendered_parts(decl).well_spelled(),
{
    reveal_strlit("CREATE TYPE ");
    reveal_strlit(" AS ");
    reveal_strlit("(");
    reveal_strlit(")");
    reveal_strlit("type");
    reveal_strlit("as");
    let parts = rendered_parts(decl);
    lemma_keyword(decl.kind);
    lemma_members_text(decl.members, 0);
    lemma_body_closes(parts.body, 0);
    lemma_plain_identifier(parts.name);
    lemma_plain_identifier(parts.type_word);
    lemma_plain_identifier(parts.as_word);
    lemma_plain_identifier(parts.kind_word);
    assert(ddl::decl_text(decl) =~= seq!['C', 'R', 'E', 'A', 'T', 'E'] + parts.text());
}

/// Behind the `CREATE` of a rendered declaration, no other begins one.
proof fn lemma_no_other_create(decl: TypeDeclView, p: int)
    requires
        plain_decl(decl),
        12 <= p <= ddl::decl_text(decl).len(),
        ddl::word_at(ddl::decl_text(decl), p - 6, "create"@),
    ensures
        ddl::decl_at(ddl::decl_text(decl), p) is None,
{
    reveal_strlit("CREATE TYPE ");
    reveal_strlit(" AS ");
    reveal_strlit("(");
    reveal_strlit(")");
    reveal_strlit("create");
    reveal_strlit("type");
    let s = ddl::decl_text(decl);
    let n = decl.name.len() as int;
    let word = decl.kind.keyword();
    let body = ddl::members_text(decl.members, 0);
    lemma_keyword(decl.kind);
    lemma_members_text(decl.members, 0);
    let head = "CREATE TYPE "@ + decl.name + " AS "@ + word + "("@;
    let tail = body + seq![')'];
    assert(s =~= head + tail);
    let k = head.len() as int;
    assert(k == 17 + n + word.len());
    if p >= k {
        lemma_members_apart(decl.members, 0);
        assert forall|j: int| 0 <= j < tail.len() implies body_char(#[trigger] tail[j]) || tail[j]
            == ')' by {
            if j < body.len() {
                assert(tail[j] == body[j]);
            }
        }
        lemma_no_decl_among_members(tail, p - k);
        lemma_decl_at_shift(head, tail, p - k);
    } else {
        assert(s.subrange(p - 6, p)[5] == s[p - 1]);
        assert(text::ascii_lower(s[p - 1]) == 'e');
        if p > 12 + n {
            let j = p - 1 - 12 - n;
            if j < 4 {
                assert(s[p - 1] == " AS "@[j]);
            } else if j < 4 + word.len() {
                assert(s[p - 1] == word[j - 4]);
            } else {
                assert(s[p - 1] == '(');
            }
            assert(false);
        }
        if p < 12 + n {
            assert(s[p] == decl.name[p - 12]);
            lemma_plain_char(decl.name[p - 12]);
            assert(false);
        }
        assert(s[p] == ' ' && s[p + 1] == 'A' && s[p + 2] == 'S' && s[p + 3] == ' ');
        assert(ddl::ws_end(s, p + 1) == p + 1);
        assert(ddl::ws_end(s, p) == p + 1);
        assert(ddl::ident_end(s, p + 3) == p + 3);
        assert(ddl::ident_end(s, p + 2) == p + 3);
        assert(ddl::ident_end(s, p + 1) == p + 3);
        assert(s.subrange(p + 1, p + 3).len() != "type"@.len());
    }
}

proof fn lemma_nothing_more(decl: TypeDeclView, i: int)
    requires
        plain_decl(decl),
        6 <= i <= ddl::decl_text(decl).len(),
    ensures
        ddl::decls_from(ddl::decl_text(decl), i) == Seq::<TypeDeclView>::empty(),
    decreases ddl::decl_text(decl).len() - i,
{
    reveal_strlit("create");
    let s = ddl::decl_text(decl);
    ddl::lemma_word_after(s, i, "create"@);
    if let Some(after) = ddl::word_after(s, i, "create"@) {
        lemma_no_other_create(decl, after);
        lemma_nothing_more(decl, after);
    }
}

proof fn lemma_nothing_to_strip(s: Seq<char>, i: int, in_string: bool)
    requires
        0 <= i <= s.len(),
        forall|k: int| 0 <= k < s.len() ==> #[trigger] s[k] != '-',
    ensures
        ddl::stripped(s, i, in_string) == s.skip(i),
    decreases s.len() - i,
{
    if i < s.len() {
        assert(s[i] != '-');
        lemma_nothing_to_strip(s, i + 1, if s[i] == '\'' {
            !in_string
        } else {
            in_string
        });
        assert(seq![s[i]] + s.skip(i + 1) =~= s.skip(i));
    } else {
        assert(s.skip(i) =~= Seq::empty());
    }
}

proof fn lemma_no_dash(decl: TypeDeclView)
    requires
        plain_decl(decl),
    ensures
        forall|k: int|
            0 <= k < ddl::decl_text(decl).len() ==> #[trigger] ddl::decl_text(decl)[k] != '-',
{
    reveal_strlit("CREATE TYPE ");
    reveal_strlit(" AS ");
    reveal_strlit("(");
    reveal_strlit(")");
    let s = ddl::decl_text(decl);
    let n = decl.name.len() as int;
    let word = decl.kind.keyword();
    let w = word.len() as int;
    let body = ddl::members_text(decl.members, 0);
    lemma_keyword(decl.kind);
    lemma_members_text(decl.members, 0);
    assert forall|k: int| 0 <= k < s.len() implies #[trigger] s[k] != '-' by {
        if k < 12 {
            assert(s[k] == "CREATE TYPE "@[k]);
        } else if k < 12 + n {
            assert(s[k] == decl.name[k - 12]);
        } else if k < 16 + n {
            assert(s[k] == " AS "@[k - 12 - n]);
        } else if k < 16 + n + w {
            assert(s[k] == word[k - 16 - n]);
        } else if k == 16 + n + w {
            assert(s[k] == '(');
        } else if k < s.len() - 1 {
            assert(s[k] == body[k - 17 - n - w]);
        } else {
            assert(s[k] == ')');
        }
    }
}

proof fn lemma_starts_with_create(decl: TypeDeclView)
    ensures
        ddl::word_after(ddl::decl_text(decl), 0, "create"@) == Some(6int),
        ddl::decl_text(decl).len() >= 12,
{
    reveal_strlit("create");
    reveal_strlit("CREATE TYPE ");
    let s = ddl::decl_text(decl);
    let word = "CREATE TYPE "@;
    let rest = s.skip(12);
    assert(s =~= word + rest);
    assert(s[6] == word[6]);
    let here = s.subrange(0, 6);
    assert forall|k: int| 0 <= k < 6 implies text::ascii_lower(#[trigger] here[k])
        == text::ascii_lower("create"@[k]) by {
        assert(here[k] == word[k]);
    }
    assert(ddl::word_at(s, 0, "create"@));
}

/// What a spelling declares.
spec fn declared(parts: ddl::Spelling) -> TypeDeclView {
    TypeDeclView {
        name: parts.name,
        kind: ddl::kind_of(text::in_lower_case(parts.kind_word))->0,
        members: ddl::members_of(parts.body, 0),
    }
}

proof fn lemma_spelled_behind(
    s: Seq<char>,
    head: Seq<char>,
    parts: ddl::Spelling,
    decl: TypeDeclView,
)
    requires
        s == head + parts.text(),
        parts.well_spelled(),
        declared(parts) == decl,
    ensures
        ddl::decl_at(s, head.len() as int) == Some(decl),
{
    ddl::declaration_spacing_does_not_count(parts);
    lemma_decl_at_shift(head, parts.text(), 0);
}

proof fn lemma_parts_declare(decl: TypeDeclView)
    requires
        plain_decl(decl),
    ensures
        declared(rendered_parts(decl)) == decl,
{
    let none = Seq::<char>::empty();
    let body = ddl::members_text(decl.members, 0);
    lemma_keyword(decl.kind);
    lemma_members_read_back(none, decl.members, 0);
    assert(none + body =~= body);
    assert(decl.members.skip(0) =~= decl.members);
}

#[verifier::spinoff_prover]
#[verifier::rlimit(40)]
proof fn lemma_first_declaration(decl: TypeDeclView)
    requires
        plain_decl(decl),
    ensures
        ddl::decl_at(ddl::decl_text(decl), 6) == Some(decl),
{
    let head = seq!['C', 'R', 'E', 'A', 'T', 'E'];
    let parts = rendered_parts(decl);
    lemma_rendered_is_spelled(decl);
    lemma_parts_declare(decl);
    lemma_spelled_behind(ddl::decl_text(decl), head, parts, decl);
}

/// A rendered declaration is read back as it is, provided that its names and
/// types are plain.
pub proof fn renderings_read_back(decl: TypeDeclView)
    requires
        plain_decl(decl),
    ensures
        ddl::decls_in(ddl::decl_text(decl)) == seq![decl],
{
    let s = ddl::decl_text(decl);
    lemma_no_dash(decl);
    lemma_nothing_to_strip(s, 0, false);
    assert(s.skip(0) =~= s);
    lemma_starts_with_create(decl);
    lemma_first_declaration(decl);
    lemma_nothing_more(decl, 6);
    assert(ddl::decls_from(s, 0) =~= seq![decl]);
}

/// The canonical text of a declaration is read back as the declaration in
/// lower case, provided that its names and types are plain.
pub proof fn canonical_texts_read_back(decl: TypeDeclView)
    requires
        plain_decl(decl),
    ensures
        ddl::decls_in(ddl::canonical_text(decl)) == seq![ddl::lowered(decl)],
{
    let low = ddl::lowered(decl);
    lemma_plain_in_lower_case(decl.name);
    assert forall|i: int| 0 <= i < low.members.len() implies plain_member(
        #[trigger] low.members[i],
    ) by {
        assert(plain_member(decl.members[i]));
        lemma_plain_in_lower_case(decl.members[i].0);
        lemma_plain_in_lower_case(decl.members[i].1);
    }
    renderings_read_back(low);
}

proof fn lemma_plain_in_lower_case(s: Seq<char>)
    requires
        plain(s),
    ensures
        plain(text::in_lower_case(s)),
        text::in_lower_case(s).len() == s.len(),
{
    assert forall|i: int| 0 <= i < s.len() implies (#[trigger] s[i]) as u32 <= 0x7f by {
        assert(plain_char(s[i]));
    }
    assert(text::is_ascii(s));
    let low = text::in_lower_case(s);
    assert forall|i: int| 0 <= i < low.len() implies plain_char(#[trigger] low[i]) by {
        assert(plain_char(s[i]));
        assert(low[i] == text::ascii_lower(s[i]));
    }
}

} // verus!
