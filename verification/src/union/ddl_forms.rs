//! The forms of a script and of a finding, each in terms of its parts: what a
//! comment and a string literal are, where a member and a group end, and how
//! a line is made.

use vstd::prelude::*;

use crate::text;
use crate::union::ddl;
use crate::union::ddl::{DriftView, TypeDeclView, TypeKind};
use crate::union::ddl_laws;

verus! {

// ---------------------------------------------------------------------------
// Comments and string literals
// ---------------------------------------------------------------------------

/// A comment runs from two dashes to the end of its line, and leaves the line
/// feed, or to the end of the text. Anything else that starts no string
/// literal stays, a single dash too.
pub proof fn comments_run_to_the_end_of_their_line(x: char, c: Seq<char>, b: Seq<char>)
    requires
        !c.contains('\n'),
    ensures
        ddl::stripped(seq!['-', '-'] + c + seq!['\n'] + b, 0, false) == seq!['\n'] + ddl::stripped(
            b,
            0,
            false,
        ),
        ddl::stripped(seq!['-', '-'] + c, 0, false) == Seq::<char>::empty(),
        x != '-' && x != '\'' ==> ddl::stripped(seq![x] + b, 0, false) == seq![x] + ddl::stripped(
            b,
            0,
            false,
        ),
        b.len() == 0 || b[0] != '-' ==> ddl::stripped(seq!['-'] + b, 0, false) == seq!['-']
            + ddl::stripped(b, 0, false),
        ddl::stripped(Seq::empty(), 0, false) == Seq::<char>::empty(),
{
    let none = Seq::<char>::empty();
    let noted = seq!['-', '-'] + c + seq!['\n'] + b;
    ddl::lemma_comment_ignored(none, c, b, 0, false);
    assert(none + noted =~= noted);
    assert(none + (seq!['\n'] + b) =~= seq!['\n'] + b);
    lemma_first_stays('\n', b);
    if x != '-' && x != '\'' {
        lemma_first_stays(x, b);
    }
    if b.len() == 0 || b[0] != '-' {
        lemma_first_stays('-', b);
    }
    let last = seq!['-', '-'] + c;
    assert forall|k: int| 0 <= k < last.len() implies last[k] != '\n' by {
        if k >= 2 {
            assert(last[k] == c[k - 2]);
        }
    }
    lemma_no_feed_to_the_end(last, 0);
    assert(last[0] == '-' && last[1] == '-');
    assert(ddl::stripped(last, last.len() as int, false) =~= none);
}

proof fn lemma_no_feed_to_the_end(s: Seq<char>, i: int)
    requires
        0 <= i <= s.len(),
        forall|k: int| i <= k < s.len() ==> s[k] != '\n',
    ensures
        ddl::line_end(s, i) == s.len(),
    decreases s.len() - i,
{
    if i < s.len() {
        lemma_no_feed_to_the_end(s, i + 1);
    }
}

proof fn lemma_first_stays(x: char, b: Seq<char>)
    requires
        x != '\'',
        x == '-' ==> b.len() == 0 || b[0] != '-',
    ensures
        ddl::stripped(seq![x] + b, 0, false) == seq![x] + ddl::stripped(b, 0, false),
{
    let s = seq![x] + b;
    assert(s[0] == x);
    if b.len() > 0 {
        assert(s[1] == b[0]);
    }
    ddl::lemma_stripped_shift(seq![x], b, 0, false);
}

/// A string literal stays as it is, dashes and all, up to the quote that ends
/// it, or to the end of the text. What follows it is outside a literal again.
pub proof fn string_literals_stay(x: Seq<char>, b: Seq<char>)
    requires
        !x.contains('\''),
    ensures
        ddl::stripped(seq!['\''] + x + seq!['\''] + b, 0, false) == seq!['\''] + x + seq!['\'']
            + ddl::stripped(b, 0, false),
        ddl::stripped(seq!['\''] + x, 0, false) == seq!['\''] + x,
{
    let head = seq!['\''] + x + seq!['\''];
    let s = head + b;
    assert(s[0] == '\'');
    assert forall|k: int| 1 <= k < 1 + x.len() implies s[k] != '\'' by {
        assert(s[k] == x[k - 1]);
    }
    assert(s[1 + x.len() as int] == '\'');
    lemma_literal(s, 1, 1 + x.len() as int);
    ddl::lemma_stripped_shift(head, b, 0, false);
    assert(seq!['\''] + s.subrange(1, 1 + x.len() as int) =~= seq!['\''] + x);
    assert(ddl::stripped(s, 0, false) =~= seq!['\''] + ddl::stripped(s, 1, true));
    assert(ddl::stripped(s, 0, false) =~= seq!['\''] + x + seq!['\''] + ddl::stripped(b, 0, false));
    let open = seq!['\''] + x;
    assert(open[0] == '\'');
    assert forall|k: int| 1 <= k < open.len() implies open[k] != '\'' by {
        assert(open[k] == x[k - 1]);
    }
    lemma_literal(open, 1, open.len() as int);
    assert(open.subrange(1, open.len() as int) =~= x);
    assert(ddl::stripped(open, 0, false) =~= open);
}

proof fn lemma_literal(s: Seq<char>, i: int, to: int)
    requires
        0 <= i <= to <= s.len(),
        forall|k: int| i <= k < to ==> s[k] != '\'',
        to < s.len() ==> s[to] == '\'',
    ensures
        ddl::stripped(s, i, true) == s.subrange(i, to) + (if to < s.len() {
            seq!['\''] + ddl::stripped(s, to + 1, false)
        } else {
            Seq::empty()
        }),
    decreases to - i,
{
    if i < to {
        lemma_literal(s, i + 1, to);
        assert(seq![s[i]] + s.subrange(i + 1, to) =~= s.subrange(i, to));
        assert(ddl::stripped(s, i, true) =~= s.subrange(i, to) + (if to < s.len() {
            seq!['\''] + ddl::stripped(s, to + 1, false)
        } else {
            Seq::empty()
        }));
    } else {
        assert(s.subrange(i, to) =~= Seq::empty());
        assert(ddl::stripped(s, i, true) =~= s.subrange(i, to) + (if to < s.len() {
            seq!['\''] + ddl::stripped(s, to + 1, false)
        } else {
            Seq::empty()
        }));
    }
}

// ---------------------------------------------------------------------------
// Words
// ---------------------------------------------------------------------------

/// Among ASCII characters, letters, digits and the underscore make up
/// identifiers, and nothing else does.
pub proof fn identifiers_are_made_of_word_characters(c: char)
    requires
        c as u32 <= 0x7f,
    ensures
        ddl::ident_char(c) <==> 'a' <= c <= 'z' || 'A' <= c <= 'Z' || '0' <= c <= '9' || c == '_',
{
}

/// A word is found where it stands first, in any ASCII case and with no
/// identifier character next to it; and none is found exactly where it stands
/// nowhere.
pub proof fn the_first_word_is_found(s: Seq<char>, i: int, word: Seq<char>)
    requires
        0 <= i,
    ensures
        ddl::word_after(s, i, word) matches Some(after) ==> {
            let at = after - word.len();
            &&& i <= at && after <= s.len()
            &&& forall|k: int|
                0 <= k < word.len() ==> text::ascii_lower(#[trigger] s[at + k])
                    == text::ascii_lower(word[k])
            &&& at > 0 ==> !ddl::ident_char(s[at - 1])
            &&& after < s.len() ==> !ddl::ident_char(s[after])
            &&& forall|k: int| i <= k < at ==> !#[trigger] ddl::word_at(s, k, word)
        },
        ddl::word_after(s, i, word) is None ==> forall|k: int|
            i <= k ==> !#[trigger] ddl::word_at(s, k, word),
    decreases s.len() + 1 - i,
{
    if i + word.len() <= s.len() {
        if ddl::word_at(s, i, word) {
            let found = s.subrange(i, i + word.len());
            assert forall|k: int| 0 <= k < word.len() implies text::ascii_lower(
                #[trigger] s[i + k],
            ) == text::ascii_lower(word[k]) by {
                assert(found[k] == s[i + k]);
            }
        } else {
            the_first_word_is_found(s, i + 1, word);
        }
    }
}

/// A script in which no `CREATE` stands declares nothing.
pub proof fn nothing_is_declared_without_a_create(sql: Seq<char>)
    requires
        forall|i: int|
            0 <= i ==> !#[trigger] ddl::word_at(ddl::stripped(sql, 0, false), i, "create"@),
    ensures
        ddl::decls_in(sql) == Seq::<TypeDeclView>::empty(),
{
    let s = ddl::stripped(sql, 0, false);
    the_first_word_is_found(s, 0, "create"@);
    if ddl::word_after(s, 0, "create"@) is Some {
        ddl::lemma_word_after(s, 0, "create"@);
    }
}

/// The two kinds have their keywords, and only those.
pub proof fn kinds_have_their_keywords(lower: Seq<char>)
    ensures
        TypeKind::Struct.keyword() == "STRUCT"@,
        TypeKind::Union.keyword() == "UNION"@,
        ddl::kind_of("struct"@) == Some(TypeKind::Struct),
        ddl::kind_of("union"@) == Some(TypeKind::Union),
        lower != "struct"@ && lower != "union"@ ==> ddl::kind_of(lower) is None,
{
    reveal_strlit("struct");
    reveal_strlit("union");
    assert("struct"@.len() == 6 && "union"@.len() == 5);
}

// ---------------------------------------------------------------------------
// Members and groups
// ---------------------------------------------------------------------------

/// How many parentheses are open at `to` of those opened from `from` on. One
/// that closes nothing counts for nothing.
pub open spec fn nesting(s: Seq<char>, from: int, to: int, open: nat) -> nat
    decreases to - from,
{
    if to <= from {
        open
    } else {
        let before = nesting(s, from, to - 1, open);
        if s[to - 1] == '(' {
            before + 1
        } else if s[to - 1] == ')' && before > 0 {
            (before - 1) as nat
        } else {
            before
        }
    }
}

proof fn lemma_nesting_step(s: Seq<char>, from: int, to: int, open: nat)
    requires
        from < to,
    ensures
        nesting(s, from, to, open) == nesting(
            s,
            from + 1,
            to,
            if s[from] == '(' {
                open + 1
            } else if s[from] == ')' && open > 0 {
                (open - 1) as nat
            } else {
                open
            },
        ),
    decreases to - from,
{
    reveal_with_fuel(nesting, 2);
    if from + 1 < to {
        lemma_nesting_step(s, from, to - 1, open);
    }
}

proof fn lemma_nesting_prefix(s: Seq<char>, t: Seq<char>, to: int)
    requires
        to <= s.len(),
    ensures
        nesting(s + t, 0, to, 0) == nesting(s, 0, to, 0),
    decreases to,
{
    if to > 0 {
        lemma_nesting_prefix(s, t, to - 1);
        assert((s + t)[to - 1] == s[to - 1]);
    }
}

/// A piece of a member list ends at the first comma outside all parentheses
/// that were opened in it, or at the end.
pub proof fn pieces_end_at_an_outer_comma(s: Seq<char>, i: int, open: nat)
    requires
        0 <= i <= s.len(),
    ensures
        ({
            let end = ddl::piece_end(s, i, open);
            &&& i <= end <= s.len()
            &&& end < s.len() ==> s[end] == ',' && nesting(s, i, end, open) == 0
            &&& forall|k: int|
                i <= k < end && #[trigger] s[k] == ',' ==> nesting(s, i, k, open) > 0
        }),
    decreases s.len() - i,
{
    if i < s.len() && !(s[i] == ',' && open == 0) {
        let next: nat = if s[i] == '(' {
            open + 1
        } else if s[i] == ')' && open > 0 {
            (open - 1) as nat
        } else {
            open
        };
        pieces_end_at_an_outer_comma(s, i + 1, next);
        let end = ddl::piece_end(s, i, open);
        assert(end == ddl::piece_end(s, i + 1, next));
        if i < end {
            lemma_nesting_step(s, i, end, open);
        }
        assert forall|k: int| i <= k < end && #[trigger] s[k] == ',' implies nesting(s, i, k, open)
            > 0 by {
            if k > i {
                lemma_nesting_step(s, i, k, open);
            }
        }
    }
}

/// Whether every parenthesis of a piece is closed in it, and every comma
/// stands inside one.
pub open spec fn one_piece(a: Seq<char>) -> bool {
    &&& nesting(a, 0, a.len() as int, 0) == 0
    &&& forall|k: int| 0 <= k < a.len() && #[trigger] a[k] == ',' ==> nesting(a, 0, k, 0) > 0
}

/// The member of a piece, as a list.
pub open spec fn at_most_one(member: Option<(Seq<char>, Seq<char>)>) -> Seq<
    (Seq<char>, Seq<char>),
> {
    match member {
        Some(m) => seq![m],
        None => Seq::empty(),
    }
}

/// A member list is read piece by piece: what stands before an outer comma is
/// one piece, and what stands behind it is a member list again.
pub proof fn member_lists_are_split_at_outer_commas(a: Seq<char>, b: Seq<char>)
    requires
        one_piece(a),
    ensures
        ddl::members_of(a, 0) == at_most_one(ddl::member_of(a)),
        ddl::members_of(a + seq![','] + b, 0) == at_most_one(ddl::member_of(a)) + ddl::members_of(
            b,
            0,
        ),
{
    let n = a.len() as int;
    lemma_one_piece_ends(a, b);
    assert(a.subrange(0, n) =~= a);
    lemma_members_step(a, 0);
    assert(ddl::members_of(a, 0) =~= at_most_one(ddl::member_of(a)));
    let head = a + seq![','];
    let s = head + b;
    assert(s.subrange(0, n) =~= a);
    lemma_members_step(s, 0);
    ddl_laws::lemma_members_shift(head, b, 0);
}

proof fn lemma_members_step(body: Seq<char>, i: int)
    requires
        0 <= i <= body.len(),
    ensures
        ({
            let end = ddl::piece_end(body, i, 0);
            ddl::members_of(body, i) == at_most_one(ddl::member_of(body.subrange(i, end))) + (if end
                < body.len() {
                ddl::members_of(body, end + 1)
            } else {
                Seq::empty()
            })
        }),
{
    let end = ddl::piece_end(body, i, 0);
    let rest = if end < body.len() {
        ddl::members_of(body, end + 1)
    } else {
        Seq::empty()
    };
    assert(Seq::<(Seq<char>, Seq<char>)>::empty() + rest =~= rest);
}

proof fn lemma_one_piece_ends(a: Seq<char>, b: Seq<char>)
    requires
        one_piece(a),
    ensures
        ddl::piece_end(a, 0, 0) == a.len(),
        ddl::piece_end(a + seq![','] + b, 0, 0) == a.len(),
{
    let n = a.len() as int;
    pieces_end_at_an_outer_comma(a, 0, 0);
    let s = a + seq![','] + b;
    let tail = seq![','] + b;
    pieces_end_at_an_outer_comma(s, 0, 0);
    let end = ddl::piece_end(s, 0, 0);
    assert(s =~= a + tail);
    lemma_nesting_prefix(a, tail, n);
    assert(s[n] == ',');
    if end < n {
        lemma_nesting_prefix(a, tail, end);
        assert(a[end] == ',');
    }
}

/// How many more parentheses are opened than closed between two positions.
pub open spec fn excess(s: Seq<char>, from: int, to: int) -> int
    decreases to - from,
{
    if to <= from {
        0
    } else {
        excess(s, from, to - 1) + (if s[to - 1] == '(' {
            1int
        } else if s[to - 1] == ')' {
            -1
        } else {
            0
        })
    }
}

proof fn lemma_excess_step(s: Seq<char>, from: int, to: int)
    requires
        from < to,
    ensures
        excess(s, from, to) == excess(s, from + 1, to) + (if s[from] == '(' {
            1int
        } else if s[from] == ')' {
            -1
        } else {
            0
        }),
    decreases to - from,
{
    reveal_with_fuel(excess, 2);
    if from + 1 < to {
        lemma_excess_step(s, from, to - 1);
    }
}

/// Of so many open parentheses, the last is closed by the first one that
/// closes more than were opened; and by none where there is none such.
pub proof fn groups_end_where_they_are_closed(s: Seq<char>, i: int, depth: nat)
    requires
        0 <= i <= s.len(),
        depth > 0,
    ensures
        match ddl::closing(s, i, depth) {
            Some(end) => {
                &&& i <= end < s.len()
                &&& s[end] == ')'
                &&& depth + excess(s, i, end) == 1
                &&& forall|k: int| i <= k <= end ==> depth + #[trigger] excess(s, i, k) >= 1
            },
            None => forall|k: int| i <= k <= s.len() ==> depth + #[trigger] excess(s, i, k) >= 1,
        },
    decreases s.len() - i,
{
    if i < s.len() {
        if s[i] == ')' && depth == 1 {
        } else {
            let next: nat = if s[i] == '(' {
                depth + 1
            } else if s[i] == ')' {
                (depth - 1) as nat
            } else {
                depth
            };
            groups_end_where_they_are_closed(s, i + 1, next);
            assert forall|k: int| i < k <= s.len() implies depth + #[trigger] excess(s, i, k) == next
                + excess(s, i + 1, k) by {
                lemma_excess_step(s, i, k);
            }
        }
    }
}

/// Squeezing leaves the words and puts one space between two of them.
pub proof fn squeezing_leaves_single_spaces(
    word: Seq<char>,
    between: Seq<char>,
    rest: Seq<char>,
)
    requires
        word.len() > 0,
        forall|i: int| 0 <= i < word.len() ==> !text::whitespace(#[trigger] word[i]),
        between.len() > 0,
        ddl::blank(between),
        rest.len() > 0,
        !text::whitespace(rest[0]),
    ensures
        ddl::squeezed(word + between + rest, 0) == word + seq![' '] + ddl::squeezed(rest, 0),
        ddl::squeezed(word + between, 0) == word,
        ddl::squeezed(word, 0) == word,
        ddl::squeezed(between + rest, 0) == ddl::squeezed(rest, 0),
        ddl::squeezed(between, 0) == Seq::<char>::empty(),
{
    let none = Seq::<char>::empty();
    let w = word.len() as int;
    let n = between.len() as int;
    // Between and behind.
    let t = between + rest;
    assert forall|k: int| 0 <= k < n implies text::whitespace(#[trigger] t[k]) by {
        assert(t[k] == between[k]);
    }
    assert(t[n] == rest[0]);
    ddl::lemma_blank_run(t, 0, n);
    ddl::lemma_blank_run(t, n, n);
    ddl::lemma_squeezed_shift(between, rest, 0);
    assert(ddl::squeezed(t, 0) == ddl::squeezed(t, n));
    ddl::lemma_blank_run(between, 0, n);
    // A word first.
    let s = word + t;
    assert(word + between + rest =~= s);
    assert forall|k: int| 0 <= k < w implies !text::whitespace(#[trigger] s[k]) by {
        assert(s[k] == word[k]);
    }
    assert(s[w] == between[0]);
    ddl::lemma_blank_run(s, 0, 0);
    ddl::lemma_word_run(s, 0, w);
    ddl::lemma_squeezed_shift(word, t, 0);
    assert(s.subrange(0, w) =~= word);
    ddl::lemma_blank_run(rest, 0, 0);
    ddl::lemma_word_end(rest, 1);
    assert(ddl::word_end(rest, 0) == ddl::word_end(rest, 1));
    assert(ddl::squeezed(rest, 0).len() > 0);
    assert(ddl::squeezed(s, 0) =~= word + seq![' '] + ddl::squeezed(rest, 0));
    // Nothing behind the word.
    let u = word + between;
    assert forall|k: int| 0 <= k < w implies !text::whitespace(#[trigger] u[k]) by {
        assert(u[k] == word[k]);
    }
    assert(u[w] == between[0]);
    ddl::lemma_blank_run(u, 0, 0);
    ddl::lemma_word_run(u, 0, w);
    ddl::lemma_squeezed_shift(word, between, 0);
    assert(u.subrange(0, w) =~= word);
    assert(ddl::squeezed(u, 0) =~= word);
    ddl::lemma_blank_run(word, 0, 0);
    ddl::lemma_word_run(word, 0, w);
    ddl::lemma_blank_run(word, w, w);
    assert(word.subrange(0, w) =~= word);
    assert(ddl::squeezed(word, w) =~= none);
    assert(ddl::squeezed(word, 0) =~= word);
}

/// A piece of white space is no member, and a piece of one word is a member
/// with no type.
pub proof fn lone_words_have_no_type(before: Seq<char>, name: Seq<char>, after: Seq<char>)
    requires
        ddl::blank(before),
        ddl::blank(after),
        name.len() > 0,
        forall|i: int| 0 <= i < name.len() ==> !text::whitespace(#[trigger] name[i]),
    ensures
        ddl::member_of(before) is None,
        ddl::member_of(before + name + after) == Some((name, Seq::<char>::empty())),
{
    let raw = before + name + after;
    let b = before.len() as int;
    let n = name.len() as int;
    ddl::lemma_blank_run(before, 0, b);
    assert forall|k: int| 0 <= k < b implies text::whitespace(#[trigger] raw[k]) by {
        assert(raw[k] == before[k]);
    }
    assert(raw[b] == name[0]);
    ddl::lemma_blank_run(raw, 0, b);
    assert forall|k: int| b + n <= k < raw.len() implies text::whitespace(#[trigger] raw[k]) by {
        assert(raw[k] == after[k - b - n]);
    }
    assert(raw[b + n - 1] == name[n - 1]);
    ddl::lemma_trim_run(raw, raw.len() as int, b + n);
    assert(raw.subrange(b, b + n) =~= name);
    ddl::lemma_word_run(name, 0, n);
}

// ---------------------------------------------------------------------------
// Lines
// ---------------------------------------------------------------------------

/// The members of a line: none is nothing, and one more stands behind a comma
/// and a space, its name and its type with a space between them.
pub proof fn member_lines_grow_at_their_end(
    members: Seq<(Seq<char>, Seq<char>)>,
    name: Seq<char>,
    ty: Seq<char>,
)
    ensures
        ddl::members_text(Seq::empty(), 0) == Seq::<char>::empty(),
        ddl::members_text(members.push((name, ty)), 0) == (if members.len() == 0 {
            name + " "@ + ty
        } else {
            ddl::members_text(members, 0) + ", "@ + name + " "@ + ty
        }),
{
    reveal_strlit(" ");
    reveal_strlit(", ");
    assert(" "@ =~= seq![' ']);
    assert(", "@ =~= seq![',', ' ']);
    if members.len() > 0 {
        lemma_one_member_more(members, name, ty, 0);
    } else {
        assert(members.push((name, ty))[0] == (name, ty));
    }
}

proof fn lemma_one_member_more(
    members: Seq<(Seq<char>, Seq<char>)>,
    name: Seq<char>,
    ty: Seq<char>,
    i: int,
)
    requires
        0 <= i < members.len(),
    ensures
        ddl::members_text(members.push((name, ty)), i) == ddl::members_text(members, i) + seq![
            ',',
            ' ',
        ] + name + seq![' '] + ty,
    decreases members.len() - i,
{
    let all = members.push((name, ty));
    assert(all[i] == members[i]);
    if i + 1 < members.len() {
        lemma_one_member_more(members, name, ty, i + 1);
    } else {
        assert(all[i + 1] == (name, ty));
        assert(ddl::members_text(all, i + 1) == ddl::member_text((name, ty)));
    }
    assert(ddl::members_text(all, i) =~= ddl::members_text(members, i) + seq![',', ' '] + name
        + seq![' '] + ty);
}

/// A declaration on its line: its words with single spaces, its kind in
/// capitals, and its members in parentheses right behind it.
pub proof fn declarations_have_one_line(decl: TypeDeclView)
    ensures
        decl.kind == TypeKind::Union ==> ddl::decl_text(decl) == "CREATE TYPE "@ + decl.name
            + " AS UNION("@ + ddl::members_text(decl.members, 0) + ")"@,
        decl.kind == TypeKind::Struct ==> ddl::decl_text(decl) == "CREATE TYPE "@ + decl.name
            + " AS STRUCT("@ + ddl::members_text(decl.members, 0) + ")"@,
{
    reveal_strlit(" AS ");
    reveal_strlit("UNION");
    reveal_strlit("STRUCT");
    reveal_strlit("(");
    reveal_strlit(" AS UNION(");
    reveal_strlit(" AS STRUCT(");
    assert(" AS UNION("@ =~= " AS "@ + "UNION"@ + "("@);
    assert(" AS STRUCT("@ =~= " AS "@ + "STRUCT"@ + "("@);
    let head = "CREATE TYPE "@ + decl.name;
    let members = ddl::members_text(decl.members, 0);
    if decl.kind == TypeKind::Union {
        assert(ddl::decl_text(decl) =~= head + (" AS "@ + "UNION"@ + "("@) + members + ")"@);
    } else {
        assert(ddl::decl_text(decl) =~= head + (" AS "@ + "STRUCT"@ + "("@) + members + ")"@);
    }
}

/// Lower case changes the letters of names and types and nothing else: a
/// declaration has as many members, in the same order, and the same kind, and
/// in ASCII every capital is its small letter.
pub proof fn lower_case_keeps_the_layout(decl: TypeDeclView, i: int)
    requires
        0 <= i < decl.members.len(),
    ensures
        ddl::lowered(decl).kind == decl.kind,
        ddl::lowered(decl).members.len() == decl.members.len(),
        ddl::lowered(decl).name == text::in_lower_case(decl.name),
        ddl::lowered(decl).members[i] == (
            text::in_lower_case(decl.members[i].0),
            text::in_lower_case(decl.members[i].1),
        ),
        ddl::canonical_text(decl) == ddl::decl_text(ddl::lowered(decl)),
{
}

/// Findings are in the order of the declarations: one more declaration adds
/// its own finding at the end and leaves the others. It is missing where
/// nothing is stored under its name in lower case, and differs, derived text
/// first, where the texts do.
pub proof fn findings_are_in_order(
    decls: Seq<TypeDeclView>,
    next: TypeDeclView,
    stored: Map<Seq<char>, TypeDeclView>,
)
    ensures
        ({
            let before = ddl::drift_of(decls, stored);
            let after = ddl::drift_of(decls.push(next), stored);
            let key = text::in_lower_case(next.name);
            if !stored.contains_key(key) {
                after.missing == before.missing.push(next.name) && after.differs == before.differs
            } else if ddl::canonical_text(stored[key]) == ddl::canonical_text(next) {
                after == before
            } else {
                after.missing == before.missing && after.differs == before.differs.push(
                    (next.name, ddl::canonical_text(next), ddl::canonical_text(stored[key])),
                )
            }
        }),
        ddl::drift_of(Seq::empty(), stored).missing == Seq::<Seq<char>>::empty(),
        ddl::drift_of(Seq::empty(), stored).differs == Seq::<
            (Seq<char>, Seq<char>, Seq<char>),
        >::empty(),
{
    assert(decls.push(next).drop_last() =~= decls);
}

/// A finding is clean where it names no type.
pub proof fn clean_findings_name_nothing(drift: DriftView)
    ensures
        drift.clean() <==> drift.missing == Seq::<Seq<char>>::empty() && drift.differs == Seq::<
            (Seq<char>, Seq<char>, Seq<char>),
        >::empty(),
{
    if drift.clean() {
        assert(drift.missing =~= Seq::empty());
        assert(drift.differs =~= Seq::empty());
    }
}

/// A missing type has one line, at the end of those before it.
pub proof fn missing_types_have_a_line(missing: Seq<Seq<char>>, name: Seq<char>)
    ensures
        ddl::missing_lines(Seq::empty(), 0) == Seq::<char>::empty(),
        ddl::missing_lines(missing.push(name), 0) == ddl::missing_lines(missing, 0) + "  "@ + name
            + ": not declared\n"@,
{
    lemma_missing_line_more(missing, name, 0);
}

proof fn lemma_missing_line_more(missing: Seq<Seq<char>>, name: Seq<char>, i: int)
    requires
        0 <= i <= missing.len(),
    ensures
        ddl::missing_lines(missing.push(name), i) == ddl::missing_lines(missing, i) + "  "@ + name
            + ": not declared\n"@,
    decreases missing.len() - i,
{
    let all = missing.push(name);
    if i < missing.len() {
        assert(all[i] == missing[i]);
        lemma_missing_line_more(missing, name, i + 1);
    } else {
        assert(all[i] == name);
        assert(ddl::missing_lines(all, i + 1) =~= Seq::empty());
    }
    assert(ddl::missing_lines(all, i) =~= ddl::missing_lines(missing, i) + "  "@ + name
        + ": not declared\n"@);
}

/// A type that differs has three lines, at the end of those before it: its
/// name, what is derived and what is stored.
pub proof fn differing_types_have_three_lines(
    differs: Seq<(Seq<char>, Seq<char>, Seq<char>)>,
    name: Seq<char>,
    derived: Seq<char>,
    stored: Seq<char>,
)
    ensures
        ddl::differing_lines(Seq::empty(), 0) == Seq::<char>::empty(),
        ddl::differing_lines(differs.push((name, derived, stored)), 0) == ddl::differing_lines(
            differs,
            0,
        ) + "  "@ + name + ":\n    derive: "@ + derived + "\n    stored: "@ + stored + "\n"@,
{
    lemma_differing_lines_more(differs, name, derived, stored, 0);
}

proof fn lemma_differing_lines_more(
    differs: Seq<(Seq<char>, Seq<char>, Seq<char>)>,
    name: Seq<char>,
    derived: Seq<char>,
    stored: Seq<char>,
    i: int,
)
    requires
        0 <= i <= differs.len(),
    ensures
        ddl::differing_lines(differs.push((name, derived, stored)), i) == ddl::differing_lines(
            differs,
            i,
        ) + "  "@ + name + ":\n    derive: "@ + derived + "\n    stored: "@ + stored + "\n"@,
    decreases differs.len() - i,
{
    let all = differs.push((name, derived, stored));
    if i < differs.len() {
        assert(all[i] == differs[i]);
        lemma_differing_lines_more(differs, name, derived, stored, i + 1);
    } else {
        assert(all[i] == (name, derived, stored));
        assert(ddl::differing_lines(all, i + 1) =~= Seq::empty());
    }
    assert(ddl::differing_lines(all, i) =~= ddl::differing_lines(differs, i) + "  "@ + name
        + ":\n    derive: "@ + derived + "\n    stored: "@ + stored + "\n"@);
}

} // verus!
