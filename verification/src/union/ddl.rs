//! Reading `CREATE TYPE … AS STRUCT/UNION(…)` back out of SQL text, so that
//! two declarations of one type can be compared.
//!
//! A comparison ignores white space, comments and case: a migration, the
//! engine's own rendering and a generated declaration agree on none of them.
//! It does not ignore the order of the members, which are positional on the
//! wire: two declarations that differ in the order of two members of one type
//! describe databases that decode each other's rows into the wrong fields.

use vstd::prelude::*;

use crate::text;
use crate::text::{
    chars_of, eq_ignore_ascii_case, is_letter_or_number, is_whitespace, lower_case, same_text,
    text_between,
};
use crate::union::ddl_laws;

verus! {

/// Which flavour of composite a `CREATE TYPE` declares.
#[derive(Debug, Clone, Copy, PartialEq, Eq, Structural)]
pub enum TypeKind {
    Struct,
    Union,
}

impl TypeKind {
    /// The keyword of this kind.
    pub open spec fn keyword(self) -> Seq<char> {
        match self {
            TypeKind::Struct => "STRUCT"@,
            TypeKind::Union => "UNION"@,
        }
    }

    fn as_str(self) -> (s: &'static str)
        ensures
            s@ == self.keyword(),
    {
        match self {
            TypeKind::Struct => "STRUCT",
            TypeKind::Union => "UNION",
        }
    }
}

/// One parsed `CREATE TYPE <name> AS STRUCT|UNION(<members>)`.
///
/// The members are pairs of a name and a type, in the order of declaration:
/// in a UNION the position is the wire tag, in a STRUCT the field index.
#[derive(Debug, Clone, PartialEq, Eq)]
pub struct TypeDecl {
    pub name: String,
    pub kind: TypeKind,
    pub members: Vec<(String, String)>,
}

/// What a [`TypeDecl`] says.
#[verifier::ext_equal]
pub struct TypeDeclView {
    pub name: Seq<char>,
    pub kind: TypeKind,
    pub members: Seq<(Seq<char>, Seq<char>)>,
}

/// The views of a list of members.
pub open spec fn member_views(members: Seq<(String, String)>) -> Seq<(Seq<char>, Seq<char>)> {
    Seq::new(members.len(), |i: int| (members[i].0@, members[i].1@))
}

impl View for TypeDecl {
    type V = TypeDeclView;

    open spec fn view(&self) -> TypeDeclView {
        TypeDeclView {
            name: self.name@,
            kind: self.kind,
            members: member_views(self.members@),
        }
    }
}

/// The views of a list of declarations.
pub open spec fn decl_views(decls: Seq<TypeDecl>) -> Seq<TypeDeclView> {
    Seq::new(decls.len(), |i: int| decls[i]@)
}

// ---------------------------------------------------------------------------
// The canonical form
// ---------------------------------------------------------------------------

/// A member: its name, one space, its type.
pub open spec fn member_text(member: (Seq<char>, Seq<char>)) -> Seq<char> {
    member.0 + seq![' '] + member.1
}

/// The members from `i` on, with a comma and a space between two of them.
pub open spec fn members_text(members: Seq<(Seq<char>, Seq<char>)>, i: int) -> Seq<char>
    decreases members.len() - i,
{
    if i < 0 || i >= members.len() {
        Seq::empty()
    } else if i + 1 == members.len() {
        member_text(members[i])
    } else {
        member_text(members[i]) + seq![',', ' '] + members_text(members, i + 1)
    }
}

/// A declaration on one line, with one space per gap.
pub open spec fn decl_text(decl: TypeDeclView) -> Seq<char> {
    "CREATE TYPE "@ + decl.name + " AS "@ + decl.kind.keyword() + "("@ + members_text(
        decl.members,
        0,
    ) + ")"@
}

/// A declaration with its names and types in lower case.
pub open spec fn lowered(decl: TypeDeclView) -> TypeDeclView {
    TypeDeclView {
        name: text::in_lower_case(decl.name),
        kind: decl.kind,
        members: Seq::new(
            decl.members.len(),
            |i: int|
                (text::in_lower_case(decl.members[i].0), text::in_lower_case(decl.members[i].1)),
        ),
    }
}

/// The text under which declarations are compared.
pub open spec fn canonical_text(decl: TypeDeclView) -> Seq<char> {
    decl_text(lowered(decl))
}

impl TypeDecl {
    /// The declaration on one line, as it is spelled.
    pub fn render(&self) -> (line: String)
        ensures
            line@ == decl_text(self@),
    {
        let mut line: String = String::new();
        line.append("CREATE TYPE ");
        line.append(self.name.as_str());
        line.append(" AS ");
        line.append(self.kind.as_str());
        line.append("(");
        let ghost members = self@.members;
        let ghost head = line@;
        let mut i: usize = 0;
        while i < self.members.len()
            invariant
                i <= self.members@.len(),
                members == member_views(self.members@),
                line@ + members_text(members, i as int) == head + members_text(members, 0),
            decreases self.members@.len() - i,
        {
            let ghost before = line@;
            let (name, ty): &(String, String) = &self.members[i];
            line.append(name.as_str());
            line.push(' ');
            line.append(ty.as_str());
            assert(line@ =~= before + member_text(members[i as int]));
            if i + 1 < self.members.len() {
                line.append(", ");
                proof {
                    reveal_strlit(", ");
                }
            }
            assert(line@ + members_text(members, i as int + 1) =~= before + members_text(
                members,
                i as int,
            ));
            i = i + 1;
        }
        assert(line@ =~= head + members_text(members, 0));
        line.append(")");
        assert(line@ =~= decl_text(self@));
        line
    }

    /// The declaration with its names and types in lower case.
    pub fn lowercased(&self) -> (low: TypeDecl)
        ensures
            low@ == lowered(self@),
    {
        let mut members: Vec<(String, String)> = Vec::new();
        let mut i: usize = 0;
        while i < self.members.len()
            invariant
                i <= self.members@.len(),
                member_views(members@) == lowered(self@).members.take(i as int),
            decreases self.members@.len() - i,
        {
            let (name, ty): &(String, String) = &self.members[i];
            let ghost before = member_views(members@);
            members.push((lower_case(name.as_str()), lower_case(ty.as_str())));
            assert(member_views(members@) =~= before.push(lowered(self@).members[i as int]));
            i = i + 1;
            assert(lowered(self@).members.take(i as int) =~= before.push(
                lowered(self@).members[i - 1],
            ));
        }
        assert(member_views(members@) =~= lowered(self@).members);
        TypeDecl { name: lower_case(self.name.as_str()), kind: self.kind, members }
    }

    /// The comparison key: everything in lower case, one space per gap. Two
    /// declarations of one layout have the same key, however they were
    /// written.
    pub fn canonical(&self) -> (key: String)
        ensures
            key@ == canonical_text(self@),
    {
        self.lowercased().render()
    }
}

// ---------------------------------------------------------------------------
// Comments
// ---------------------------------------------------------------------------

/// The first position from `i` on that holds a line feed, or the end.
pub open spec fn line_end(s: Seq<char>, i: int) -> int
    decreases s.len() - i,
{
    if i >= s.len() || s[i] == '\n' {
        i
    } else {
        line_end(s, i + 1)
    }
}

/// Whether a comment starts at `i`: two dashes outside a string literal.
pub open spec fn comment_at(s: Seq<char>, i: int, in_string: bool) -> bool {
    !in_string && i + 1 < s.len() && s[i] == '-' && s[i + 1] == '-'
}

/// The text from `i` on without its comments. A comment runs to the end of
/// its line and leaves the line feed; inside a string literal there is none.
pub open spec fn stripped(s: Seq<char>, i: int, in_string: bool) -> Seq<char>
    decreases s.len() - i,
    via stripped_decreases
{
    if i < 0 || i >= s.len() {
        Seq::empty()
    } else if comment_at(s, i, in_string) {
        stripped(s, line_end(s, i), in_string)
    } else {
        seq![s[i]] + stripped(s, i + 1, if s[i] == '\'' {
            !in_string
        } else {
            in_string
        })
    }
}

#[via_fn]
proof fn stripped_decreases(s: Seq<char>, i: int, in_string: bool) {
    if 0 <= i && comment_at(s, i, in_string) {
        lemma_line_end(s, i + 1);
        assert(line_end(s, i) == line_end(s, i + 1));
    }
}

pub(crate) proof fn lemma_line_end(s: Seq<char>, i: int)
    requires
        0 <= i <= s.len(),
    ensures
        i <= line_end(s, i) <= s.len(),
        forall|k: int| i <= k < line_end(s, i) ==> s[k] != '\n',
        line_end(s, i) < s.len() ==> s[line_end(s, i)] == '\n',
    decreases s.len() - i,
{
    if i < s.len() && s[i] != '\n' {
        lemma_line_end(s, i + 1);
    }
}

/// Takes the `--` comments out of `sql`, leaving string literals alone. Every
/// line feed stays, and stripping the result again changes nothing.
pub fn strip_comments(sql: &str) -> (out: String)
    ensures
        out@ == stripped(sql@, 0, false),
        stripped(out@, 0, false) == out@,
        out@.to_multiset().count('\n') == sql@.to_multiset().count('\n'),
{
    let chars: Vec<char> = chars_of(sql);
    let mut out: String = String::new();
    let mut in_string: bool = false;
    let mut i: usize = 0;
    assert(out@ + stripped(sql@, 0, false) =~= stripped(sql@, 0, false));
    while i < chars.len()
        invariant
            i <= sql@.len(),
            chars@ == sql@,
            out@ + stripped(sql@, i as int, in_string) == stripped(sql@, 0, false),
        decreases sql@.len() - i,
    {
        let c: char = chars[i];
        if !in_string && c == '-' && chars.len() - i > 1 && chars[i + 1] == '-' {
            let ghost start = i as int;
            i = i + 1;
            while i < chars.len() && chars[i] != '\n'
                invariant
                    start < i <= sql@.len(),
                    chars@ == sql@,
                    line_end(sql@, start) == line_end(sql@, i as int),
                decreases sql@.len() - i,
            {
                i = i + 1;
            }
            assert(line_end(sql@, start) == i);
        } else {
            let ghost before = out@;
            let ghost quoted = in_string;
            if c == '\'' {
                in_string = !in_string;
            }
            out.push(c);
            assert(out@ + stripped(sql@, i as int + 1, in_string) =~= before + stripped(
                sql@,
                i as int,
                quoted,
            ));
            i = i + 1;
        }
    }
    assert(out@ =~= stripped(sql@, 0, false));
    proof {
        ddl_laws::comments_are_stripped_once(sql@);
    }
    out
}

// ---------------------------------------------------------------------------
// Words, identifiers and groups
// ---------------------------------------------------------------------------

/// Whether a character can stand in an identifier.
pub open spec fn ident_char(c: char) -> bool {
    text::letter_or_number(c) || c == '_'
}

/// The first position from `i` on that holds no white space.
pub open spec fn ws_end(s: Seq<char>, i: int) -> int
    decreases s.len() - i,
{
    if 0 <= i < s.len() && text::whitespace(s[i]) {
        ws_end(s, i + 1)
    } else {
        i
    }
}

/// The first position from `i` on that holds no identifier character.
pub open spec fn ident_end(s: Seq<char>, i: int) -> int
    decreases s.len() - i,
{
    if 0 <= i < s.len() && ident_char(s[i]) {
        ident_end(s, i + 1)
    } else {
        i
    }
}

/// Whether `word` stands at `i` as a whole identifier, in any ASCII case.
pub open spec fn word_at(s: Seq<char>, i: int, word: Seq<char>) -> bool {
    &&& 0 <= i && i + word.len() <= s.len()
    &&& text::same_ignoring_ascii_case(s.subrange(i, i + word.len()), word)
    &&& !(i > 0 && ident_char(s[i - 1]))
    &&& !(i + word.len() < s.len() && ident_char(s[i + word.len()]))
}

/// The position just behind the first `word` at `i` or later.
pub open spec fn word_after(s: Seq<char>, i: int, word: Seq<char>) -> Option<int>
    decreases s.len() + 1 - i,
{
    if i + word.len() > s.len() {
        None
    } else if word_at(s, i, word) {
        Some(i + word.len())
    } else {
        word_after(s, i + 1, word)
    }
}

/// The identifier behind the white space at `i`, and the position behind it.
pub open spec fn ident_after(s: Seq<char>, i: int) -> Option<(Seq<char>, int)> {
    let start = ws_end(s, i);
    let end = ident_end(s, start);
    if end > start {
        Some((s.subrange(start, end), end))
    } else {
        None
    }
}

/// The position behind `word`, where that is the identifier behind the white
/// space at `i`.
pub open spec fn after_word(s: Seq<char>, i: int, word: Seq<char>) -> Option<int> {
    match ident_after(s, i) {
        Some((found, after)) => if text::same_ignoring_ascii_case(found, word) {
            Some(after)
        } else {
            None
        },
        None => None,
    }
}

/// The position of the parenthesis that closes the last of `depth` open ones,
/// at `i` or later.
pub open spec fn closing(s: Seq<char>, i: int, depth: nat) -> Option<int>
    decreases s.len() - i,
{
    if i < 0 || i >= s.len() {
        None
    } else if s[i] == '(' {
        closing(s, i + 1, depth + 1)
    } else if s[i] == ')' {
        if depth <= 1 {
            Some(i)
        } else {
            closing(s, i + 1, (depth - 1) as nat)
        }
    } else {
        closing(s, i + 1, depth)
    }
}

/// What stands in the parentheses behind the white space at `i`, and the
/// position behind them.
pub open spec fn group_after(s: Seq<char>, i: int) -> Option<(Seq<char>, int)> {
    let start = ws_end(s, i);
    if start < s.len() && s[start] == '(' {
        match closing(s, start + 1, 1) {
            Some(end) => Some((s.subrange(start + 1, end), end + 1)),
            None => None,
        }
    } else {
        None
    }
}

pub(crate) proof fn lemma_ws_end(s: Seq<char>, i: int)
    requires
        0 <= i <= s.len(),
    ensures
        i <= ws_end(s, i) <= s.len(),
        forall|k: int| i <= k < ws_end(s, i) ==> text::whitespace(s[k]),
        ws_end(s, i) < s.len() ==> !text::whitespace(s[ws_end(s, i)]),
    decreases s.len() - i,
{
    if i < s.len() && text::whitespace(s[i]) {
        lemma_ws_end(s, i + 1);
    }
}

pub(crate) proof fn lemma_ident_end(s: Seq<char>, i: int)
    requires
        0 <= i <= s.len(),
    ensures
        i <= ident_end(s, i) <= s.len(),
        forall|k: int| i <= k < ident_end(s, i) ==> ident_char(s[k]),
        ident_end(s, i) < s.len() ==> !ident_char(s[ident_end(s, i)]),
    decreases s.len() - i,
{
    if i < s.len() && ident_char(s[i]) {
        lemma_ident_end(s, i + 1);
    }
}

pub(crate) proof fn lemma_closing(s: Seq<char>, i: int, depth: nat)
    ensures
        closing(s, i, depth) matches Some(end) ==> i <= end < s.len() && s[end] == ')',
    decreases s.len() - i,
{
    if 0 <= i < s.len() {
        lemma_closing(s, i + 1, depth + 1);
        if depth > 1 {
            lemma_closing(s, i + 1, (depth - 1) as nat);
        }
        lemma_closing(s, i + 1, depth);
    }
}

fn is_ident_char(c: char) -> (yes: bool)
    ensures
        yes == ident_char(c),
{
    is_letter_or_number(c) || c == '_'
}

fn skip_ws(chars: &[char], from: usize) -> (end: usize)
    requires
        from <= chars@.len(),
    ensures
        end == ws_end(chars@, from as int),
        from <= end <= chars@.len(),
{
    let mut i: usize = from;
    while i < chars.len() && is_whitespace(chars[i])
        invariant
            from <= i <= chars@.len(),
            ws_end(chars@, from as int) == ws_end(chars@, i as int),
        decreases chars@.len() - i,
    {
        i = i + 1;
    }
    i
}

/// Whether `word` stands at `i` as a whole identifier, in any ASCII case.
fn is_word_at(chars: &[char], i: usize, word: &[char]) -> (yes: bool)
    requires
        i + word@.len() <= chars@.len(),
    ensures
        yes == word_at(chars@, i as int, word@),
{
    let n: usize = word.len();
    let ghost here = chars@.subrange(i as int, i + n);
    let mut k: usize = 0;
    while k < n
        invariant
            k <= n,
            n == word@.len(),
            i + n <= chars.len(),
            here == chars@.subrange(i as int, i + n),
            forall|j: int|
                0 <= j < k ==> text::ascii_lower(#[trigger] here[j]) == text::ascii_lower(word@[j]),
        decreases n - k,
    {
        if !eq_ignore_ascii_case(chars[i + k], word[k]) {
            assert(here[k as int] == chars@[i + k]);
            return false;
        }
        k = k + 1;
    }
    assert(text::same_ignoring_ascii_case(here, word@));
    if i > 0 && is_ident_char(chars[i - 1]) {
        return false;
    }
    !(i + n < chars.len() && is_ident_char(chars[i + n]))
}

/// The position just behind the next `word`, at `from` or later.
fn find_word(chars: &[char], from: usize, word: &str) -> (after: Option<usize>)
    requires
        from <= chars@.len(),
    ensures
        match after {
            Some(i) => word_after(chars@, from as int, word@) == Some(i as int) && from + word@.len()
                <= i <= chars@.len(),
            None => word_after(chars@, from as int, word@) is None,
        },
{
    let needle: Vec<char> = chars_of(word);
    let n: usize = needle.len();
    let mut i: usize = from;
    while n <= chars.len() - i
        invariant
            from <= i <= chars@.len(),
            needle@ == word@,
            n == needle@.len(),
            word_after(chars@, from as int, word@) == word_after(chars@, i as int, word@),
        decreases chars@.len() - i,
    {
        if is_word_at(chars, i, needle.as_slice()) {
            return Some(i + n);
        }
        if i == chars.len() {
            assert(word_after(chars@, i + 1, word@) is None);
            return None;
        }
        i = i + 1;
    }
    None
}

fn read_ident(chars: &[char], i: usize) -> (r: Option<(String, usize)>)
    requires
        i <= chars@.len(),
    ensures
        match r {
            Some((name, after)) => ident_after(chars@, i as int) == Some((name@, after as int)) && i
                < after <= chars@.len(),
            None => ident_after(chars@, i as int) is None,
        },
{
    let start: usize = skip_ws(chars, i);
    let mut end: usize = start;
    while end < chars.len() && is_ident_char(chars[end])
        invariant
            start <= end <= chars@.len(),
            ident_end(chars@, start as int) == ident_end(chars@, end as int),
        decreases chars@.len() - end,
    {
        end = end + 1;
    }
    if end > start {
        Some((text_between(chars, start, end), end))
    } else {
        None
    }
}

/// The position behind `word`, or `None` where another thing stands at `i`.
fn expect_word(chars: &[char], i: usize, word: &str) -> (r: Option<usize>)
    requires
        i <= chars@.len(),
    ensures
        match r {
            Some(after) => after_word(chars@, i as int, word@) == Some(after as int) && i < after
                <= chars@.len(),
            None => after_word(chars@, i as int, word@) is None,
        },
{
    let (found, after): (String, usize) = match read_ident(chars, i) {
        Some(read) => read,
        None => {
            return None;
        },
    };
    if text_eq_ignore_ascii_case(found.as_str(), word) {
        Some(after)
    } else {
        None
    }
}

fn text_eq_ignore_ascii_case(a: &str, b: &str) -> (same: bool)
    ensures
        same == text::same_ignoring_ascii_case(a@, b@),
{
    let x: Vec<char> = chars_of(a);
    let y: Vec<char> = chars_of(b);
    if x.len() != y.len() {
        return false;
    }
    let mut i: usize = 0;
    while i < x.len()
        invariant
            i <= x@.len(),
            x@.len() == y@.len(),
            x@ == a@,
            y@ == b@,
            forall|j: int|
                0 <= j < i ==> text::ascii_lower(#[trigger] x@[j]) == text::ascii_lower(y@[j]),
        decreases x@.len() - i,
    {
        if !eq_ignore_ascii_case(x[i], y[i]) {
            assert(x@[i as int] == a@[i as int]);
            return false;
        }
        i = i + 1;
    }
    true
}

/// Reads a balanced `(…)` group: its inner characters and the position behind
/// its closing parenthesis.
fn read_paren_group(chars: &[char], i: usize) -> (r: Option<(Vec<char>, usize)>)
    requires
        i <= chars@.len(),
    ensures
        match r {
            Some((body, after)) => group_after(chars@, i as int) == Some((body@, after as int)) && i
                < after <= chars@.len(),
            None => group_after(chars@, i as int) is None,
        },
{
    let start: usize = skip_ws(chars, i);
    if start >= chars.len() || chars[start] != '(' {
        return None;
    }
    let mut depth: usize = 1;
    let mut end: usize = start + 1;
    while end < chars.len()
        invariant
            i <= start < end <= chars@.len(),
            1 <= depth <= end - start,
            start == ws_end(chars@, i as int),
            chars@[start as int] == '(',
            closing(chars@, start + 1, 1) == closing(chars@, end as int, depth as nat),
        decreases chars@.len() - end,
    {
        let c: char = chars[end];
        if c == '(' {
            depth = depth + 1;
        } else if c == ')' {
            if depth == 1 {
                let body: Vec<char> = chars_between(chars, start + 1, end);
                return Some((body, end + 1));
            }
            depth = depth - 1;
        }
        end = end + 1;
    }
    None
}

fn chars_between(chars: &[char], from: usize, to: usize) -> (part: Vec<char>)
    requires
        from <= to <= chars@.len(),
    ensures
        part@ == chars@.subrange(from as int, to as int),
{
    vstd::slice::slice_to_vec(vstd::slice::slice_subrange(chars, from, to))
}

// ---------------------------------------------------------------------------
// Members
// ---------------------------------------------------------------------------

/// The next comma from `i` on that stands outside all parentheses opened
/// since, or the end. `depth` of them are open at `i`; one that closes
/// nothing counts for nothing.
pub open spec fn piece_end(s: Seq<char>, i: int, depth: nat) -> int
    decreases s.len() - i,
{
    if i < 0 || i >= s.len() || (s[i] == ',' && depth == 0) {
        i
    } else if s[i] == '(' {
        piece_end(s, i + 1, depth + 1)
    } else if s[i] == ')' && depth > 0 {
        piece_end(s, i + 1, (depth - 1) as nat)
    } else {
        piece_end(s, i + 1, depth)
    }
}

/// The last position up to which `s[..i]` does not end in white space.
pub open spec fn trimmed_end(s: Seq<char>, i: int) -> int
    decreases i,
{
    if 0 < i <= s.len() && text::whitespace(s[i - 1]) {
        trimmed_end(s, i - 1)
    } else {
        i
    }
}

/// `s` without the white space at its two ends.
pub open spec fn trimmed(s: Seq<char>) -> Seq<char> {
    let start = ws_end(s, 0);
    if start >= s.len() {
        Seq::empty()
    } else {
        s.subrange(start, trimmed_end(s, s.len() as int))
    }
}

/// The first position from `i` on that holds white space, or the end.
pub open spec fn word_end(s: Seq<char>, i: int) -> int
    decreases s.len() - i,
{
    if 0 <= i < s.len() && !text::whitespace(s[i]) {
        word_end(s, i + 1)
    } else {
        i
    }
}

/// The words of `s` from `i` on, with one space between two of them.
pub open spec fn squeezed(s: Seq<char>, i: int) -> Seq<char>
    decreases s.len() - i,
    via squeezed_decreases
{
    let start = ws_end(s, i);
    if i < 0 || start >= s.len() {
        Seq::empty()
    } else {
        let end = word_end(s, start);
        let rest = squeezed(s, end);
        s.subrange(start, end) + (if rest.len() == 0 {
            rest
        } else {
            seq![' '] + rest
        })
    }
}

#[via_fn]
proof fn squeezed_decreases(s: Seq<char>, i: int) {
    if 0 <= i && ws_end(s, i) < s.len() {
        if i <= s.len() {
            lemma_ws_end(s, i);
        }
        lemma_word_end(s, ws_end(s, i) + 1);
        assert(word_end(s, ws_end(s, i)) == word_end(s, ws_end(s, i) + 1));
    }
}

pub(crate) proof fn lemma_word_end(s: Seq<char>, i: int)
    requires
        0 <= i <= s.len(),
    ensures
        i <= word_end(s, i) <= s.len(),
        forall|k: int| i <= k < word_end(s, i) ==> !text::whitespace(s[k]),
        word_end(s, i) < s.len() ==> text::whitespace(s[word_end(s, i)]),
    decreases s.len() - i,
{
    if i < s.len() && !text::whitespace(s[i]) {
        lemma_word_end(s, i + 1);
    }
}

pub(crate) proof fn lemma_piece_end(s: Seq<char>, i: int, depth: nat)
    requires
        0 <= i <= s.len(),
    ensures
        i <= piece_end(s, i, depth) <= s.len(),
        piece_end(s, i, depth) < s.len() ==> s[piece_end(s, i, depth)] == ',',
    decreases s.len() - i,
{
    if i < s.len() && !(s[i] == ',' && depth == 0) {
        if s[i] == '(' {
            lemma_piece_end(s, i + 1, depth + 1);
        } else if s[i] == ')' && depth > 0 {
            lemma_piece_end(s, i + 1, (depth - 1) as nat);
        } else {
            lemma_piece_end(s, i + 1, depth);
        }
    }
}

/// The member that one piece of a member list spells: up to its first white
/// space a name, behind it a type. A piece of one word has an empty type, and
/// an empty piece is no member.
pub open spec fn member_of(raw: Seq<char>) -> Option<(Seq<char>, Seq<char>)> {
    let s = trimmed(raw);
    let end = word_end(s, 0);
    if s.len() == 0 {
        None
    } else if end < s.len() {
        Some((s.take(end), squeezed(s.skip(end + 1), 0)))
    } else {
        Some((s, Seq::empty()))
    }
}

/// The members that a member list spells from `i` on, in order.
pub open spec fn members_of(body: Seq<char>, i: int) -> Seq<(Seq<char>, Seq<char>)>
    decreases body.len() - i,
    via members_decreases
{
    if i < 0 || i > body.len() {
        Seq::empty()
    } else {
        let end = piece_end(body, i, 0);
        let rest = if end < body.len() {
            members_of(body, end + 1)
        } else {
            Seq::empty()
        };
        match member_of(body.subrange(i, end)) {
            Some(member) => seq![member] + rest,
            None => rest,
        }
    }
}

#[via_fn]
proof fn members_decreases(body: Seq<char>, i: int) {
    if 0 <= i <= body.len() {
        lemma_piece_end(body, i, 0);
    }
}

/// The words of `chars` from `from` on, with one space between two of them.
fn squeeze(chars: &[char], from: usize) -> (out: String)
    requires
        from <= chars@.len(),
    ensures
        out@ == squeezed(chars@, from as int),
{
    let mut out: String = String::new();
    let mut i: usize = from;
    assert(squeezed(chars@, from as int) =~= joined(out@, squeezed(chars@, i as int)));
    loop
        invariant
            i <= chars@.len(),
            squeezed(chars@, from as int) == joined(out@, squeezed(chars@, i as int)),
        decreases chars@.len() - i,
    {
        let start: usize = skip_ws(chars, i);
        if start == chars.len() {
            assert(joined(out@, squeezed(chars@, i as int)) =~= out@);
            return out;
        }
        let ghost before = out@;
        if !out.as_str().is_empty() {
            out.push(' ');
        }
        let mut end: usize = start;
        while end < chars.len() && !is_whitespace(chars[end])
            invariant
                start <= end <= chars@.len(),
                word_end(chars@, start as int) == word_end(chars@, end as int),
            decreases chars@.len() - end,
        {
            end = end + 1;
        }
        proof {
            lemma_ws_end(chars@, i as int);
            lemma_word_end(chars@, start as int + 1);
            assert(word_end(chars@, start as int) == word_end(chars@, start as int + 1));
        }
        let word: String = text_between(chars, start, end);
        out.append(word.as_str());
        assert(joined(before, squeezed(chars@, i as int)) =~= joined(
            out@,
            squeezed(chars@, end as int),
        ));
        i = end;
    }
}

/// Two texts with a space between them where neither is empty.
spec fn joined(a: Seq<char>, b: Seq<char>) -> Seq<char> {
    if a.len() == 0 {
        b
    } else if b.len() == 0 {
        a
    } else {
        a + seq![' '] + b
    }
}

/// Appends the member that `raw` spells, where it spells one.
fn push_member(members: &mut Vec<(String, String)>, raw: &[char])
    ensures
        member_views(final(members)@) == member_views(old(members)@) + (match member_of(raw@) {
            Some(member) => seq![member],
            None => Seq::empty(),
        }),
{
    let ghost before = member_views(members@);
    let start: usize = skip_ws(raw, 0);
    if start == raw.len() {
        assert(trimmed(raw@).len() == 0);
        assert(before + Seq::<(Seq<char>, Seq<char>)>::empty() =~= before);
        return;
    }
    proof {
        lemma_ws_end(raw@, 0);
    }
    let mut end: usize = raw.len();
    while end > 0 && is_whitespace(raw[end - 1])
        invariant
            start < end <= raw@.len(),
            !text::whitespace(raw@[start as int]),
            trimmed_end(raw@, raw@.len() as int) == trimmed_end(raw@, end as int),
        decreases end,
    {
        end = end - 1;
    }
    let trim: Vec<char> = chars_between(raw, start, end);
    assert(trim@ == trimmed(raw@));
    let mut split: usize = 0;
    while split < trim.len() && !is_whitespace(trim[split])
        invariant
            split <= trim@.len(),
            word_end(trim@, 0) == word_end(trim@, split as int),
        decreases trim@.len() - split,
    {
        split = split + 1;
    }
    let name: String = text_between(trim.as_slice(), 0, split);
    let ty: String = if split < trim.len() {
        let rest: Vec<char> = chars_between(trim.as_slice(), split + 1, trim.len());
        assert(rest@ =~= trim@.skip(split + 1));
        squeeze(rest.as_slice(), 0)
    } else {
        String::new()
    };
    assert(trim@.subrange(0, split as int) =~= trim@.take(split as int));
    if split == trim.len() {
        assert(trim@.take(split as int) =~= trim@);
    }
    let ghost member = (name@, ty@);
    members.push((name, ty));
    assert(member_views(members@) =~= before + seq![member]);
}

/// Splits a member list on the commas outside parentheses, and each member on
/// its first white space.
fn split_members(body: &[char]) -> (members: Vec<(String, String)>)
    ensures
        member_views(members@) == members_of(body@, 0),
{
    let mut members: Vec<(String, String)> = Vec::new();
    let mut i: usize = 0;
    assert(member_views(members@) + members_of(body@, 0) =~= members_of(body@, 0));
    loop
        invariant
            i <= body@.len(),
            member_views(members@) + members_of(body@, i as int) == members_of(body@, 0),
        decreases body@.len() - i,
    {
        let mut depth: usize = 0;
        let mut end: usize = i;
        while end < body.len() && !(body[end] == ',' && depth == 0)
            invariant
                i <= end <= body@.len(),
                depth <= end - i,
                piece_end(body@, i as int, 0) == piece_end(body@, end as int, depth as nat),
            decreases body@.len() - end,
        {
            let c: char = body[end];
            if c == '(' {
                depth = depth + 1;
            } else if c == ')' && depth > 0 {
                depth = depth - 1;
            }
            end = end + 1;
        }
        let ghost before = member_views(members@);
        let raw: Vec<char> = chars_between(body, i, end);
        push_member(&mut members, raw.as_slice());
        if end == body.len() {
            assert(member_views(members@) =~= before + members_of(body@, i as int));
            return members;
        }
        assert(member_views(members@) + members_of(body@, end + 1) =~= before + members_of(
            body@,
            i as int,
        ));
        i = end + 1;
    }
}

// ---------------------------------------------------------------------------
// Declarations
// ---------------------------------------------------------------------------

/// The kind that a keyword in lower case names.
pub open spec fn kind_of(lower: Seq<char>) -> Option<TypeKind> {
    if lower == "struct"@ {
        Some(TypeKind::Struct)
    } else if lower == "union"@ {
        Some(TypeKind::Union)
    } else {
        None
    }
}

/// The kind that a keyword in lower case names.
pub fn kind_from_keyword(lower: &str) -> (kind: Option<TypeKind>)
    ensures
        kind == kind_of(lower@),
{
    if same_text(lower, "struct") {
        Some(TypeKind::Struct)
    } else if same_text(lower, "union") {
        Some(TypeKind::Union)
    } else {
        None
    }
}

/// The position behind the parameter list at `i`, where one stands there, and
/// else behind the white space. `None` where the list is not closed.
pub open spec fn params_end(s: Seq<char>, i: int) -> Option<int> {
    let start = ws_end(s, i);
    if start < s.len() && s[start] == '(' {
        match group_after(s, start) {
            Some((_, after)) => Some(after),
            None => None,
        }
    } else {
        Some(start)
    }
}

/// The declaration of a composite whose `CREATE` ends at `i`. A domain, which
/// has no `AS`, is none.
pub open spec fn decl_at(s: Seq<char>, i: int) -> Option<TypeDeclView> {
    match after_word(s, i, "type"@) {
        None => None,
        Some(after_type) => match ident_after(s, after_type) {
            None => None,
            Some((name, after_name)) => match params_end(s, after_name) {
                None => None,
                Some(after_params) => match after_word(s, after_params, "as"@) {
                    None => None,
                    Some(after_as) => match ident_after(s, after_as) {
                        None => None,
                        Some((word, after_kind)) => match kind_of(text::in_lower_case(word)) {
                            None => None,
                            Some(kind) => match group_after(s, after_kind) {
                                None => None,
                                Some((body, _)) => Some(
                                    TypeDeclView { name, kind, members: members_of(body, 0) },
                                ),
                            },
                        },
                    },
                },
            },
        },
    }
}

/// The declarations of composites in `s` from `i` on, in order. `s` has no
/// comments.
pub open spec fn decls_from(s: Seq<char>, i: int) -> Seq<TypeDeclView>
    decreases s.len() - i,
    via decls_decreases
{
    if i < 0 || i > s.len() {
        Seq::empty()
    } else {
        match word_after(s, i, "create"@) {
            None => Seq::empty(),
            Some(after) => match decl_at(s, after) {
                Some(decl) => seq![decl] + decls_from(s, after),
                None => decls_from(s, after),
            },
        }
    }
}

#[via_fn]
proof fn decls_decreases(s: Seq<char>, i: int) {
    reveal_strlit("create");
    lemma_word_after(s, i, "create"@);
}

pub(crate) proof fn lemma_word_after(s: Seq<char>, i: int, word: Seq<char>)
    ensures
        word_after(s, i, word) matches Some(after) ==> i + word.len() <= after <= s.len() && word_at(
            s,
            after - word.len(),
            word,
        ),
    decreases s.len() + 1 - i,
{
    if i + word.len() <= s.len() && !word_at(s, i, word) {
        lemma_word_after(s, i + 1, word);
    }
}

/// Every declaration of a composite in `sql`.
pub open spec fn decls_in(sql: Seq<char>) -> Seq<TypeDeclView> {
    decls_from(stripped(sql, 0, false), 0)
}

/// The declaration of a composite whose `CREATE` ends at `i`.
fn read_decl(chars: &[char], i: usize) -> (decl: Option<TypeDecl>)
    requires
        i <= chars@.len(),
    ensures
        match decl {
            Some(d) => decl_at(chars@, i as int) == Some(d@),
            None => decl_at(chars@, i as int) is None,
        },
{
    let after_type: usize = match expect_word(chars, i, "type") {
        Some(after) => after,
        None => {
            return None;
        },
    };
    let (name, after_name): (String, usize) = match read_ident(chars, after_type) {
        Some(read) => read,
        None => {
            return None;
        },
    };
    // A domain spells its parameter list right behind the name.
    let mut cursor: usize = skip_ws(chars, after_name);
    if cursor < chars.len() && chars[cursor] == '(' {
        match read_paren_group(chars, cursor) {
            Some((_, after_params)) => {
                cursor = after_params;
            },
            None => {
                return None;
            },
        }
    }
    let after_as: usize = match expect_word(chars, cursor, "as") {
        Some(after) => after,
        None => {
            return None;
        },
    };
    let (word, after_kind): (String, usize) = match read_ident(chars, after_as) {
        Some(read) => read,
        None => {
            return None;
        },
    };
    let kind: TypeKind = match kind_from_keyword(lower_case(word.as_str()).as_str()) {
        Some(kind) => kind,
        None => {
            return None;
        },
    };
    match read_paren_group(chars, after_kind) {
        Some((body, _)) => Some(TypeDecl { name, kind, members: split_members(body.as_slice()) }),
        None => None,
    }
}

/// Every `CREATE TYPE … AS STRUCT/UNION(…)` in `sql`, in the order they
/// appear.
///
/// Anything else that starts with `CREATE TYPE` is skipped: a domain declares
/// no internal layout, so it holds nothing to compare.
pub fn parse_create_types(sql: &str) -> (decls: Vec<TypeDecl>)
    ensures
        decl_views(decls@) == decls_in(sql@),
{
    let chars: Vec<char> = chars_of(strip_comments(sql).as_str());
    let mut decls: Vec<TypeDecl> = Vec::new();
    let mut from: usize = 0;
    let ghost all = decls_from(chars@, 0);
    assert(decl_views(decls@) + all =~= all);
    proof {
        reveal_strlit("create");
    }
    loop
        invariant
            from <= chars@.len(),
            all == decls_from(chars@, 0),
            "create"@.len() == 6,
            decl_views(decls@) + decls_from(chars@, from as int) == all,
        ensures
            decl_views(decls@) == all,
        decreases chars@.len() - from,
    {
        match find_word(chars.as_slice(), from, "create") {
            None => {
                assert(decl_views(decls@) =~= all);
                break;
            },
            Some(after) => {
                let ghost before = decl_views(decls@);
                match read_decl(chars.as_slice(), after) {
                    Some(decl) => {
                        let ghost view = decl@;
                        decls.push(decl);
                        assert(decl_views(decls@) =~= before.push(view));
                        assert(before.push(view) + decls_from(chars@, after as int) =~= before
                            + decls_from(chars@, from as int));
                    },
                    None => {},
                }
                from = after;
            },
        }
    }
    decls
}

// ---------------------------------------------------------------------------
// Comparison
// ---------------------------------------------------------------------------

/// Declarations by key. A key that is put in twice has the later declaration.
#[derive(Debug)]
pub struct TypeIndex {
    entries: Vec<(String, TypeDecl)>,
}

impl View for TypeIndex {
    type V = Map<Seq<char>, TypeDeclView>;

    closed spec fn view(&self) -> Map<Seq<char>, TypeDeclView> {
        entries_map(self.entries@)
    }
}

spec fn entries_map(entries: Seq<(String, TypeDecl)>) -> Map<Seq<char>, TypeDeclView>
    decreases entries.len(),
{
    if entries.len() == 0 {
        Map::empty()
    } else {
        entries_map(entries.drop_last()).insert(entries.last().0@, entries.last().1@)
    }
}

impl TypeIndex {
    /// An index of nothing.
    pub fn new() -> (index: TypeIndex)
        ensures
            index@ == Map::<Seq<char>, TypeDeclView>::empty(),
    {
        TypeIndex { entries: Vec::new() }
    }

    /// Puts `decl` under `key`.
    pub fn insert(&mut self, key: String, decl: TypeDecl)
        ensures
            final(self)@ == old(self)@.insert(key@, decl@),
    {
        self.entries.push((key, decl));
        assert(self.entries@.drop_last() =~= old(self).entries@);
    }

    /// The declaration under `key`.
    pub fn get(&self, key: &str) -> (found: Option<&TypeDecl>)
        ensures
            match found {
                Some(decl) => self@.contains_key(key@) && decl@ == self@[key@],
                None => !self@.contains_key(key@),
            },
    {
        let mut i: usize = self.entries.len();
        assert(self.entries@.take(i as int) =~= self.entries@);
        while i > 0
            invariant
                i <= self.entries@.len(),
                self@.contains_key(key@) == entries_map(self.entries@.take(i as int)).contains_key(
                    key@,
                ),
                self@.contains_key(key@) ==> self@[key@] == entries_map(
                    self.entries@.take(i as int),
                )[key@],
            decreases i,
        {
            i = i - 1;
            assert(self.entries@.take(i + 1).drop_last() =~= self.entries@.take(i as int));
            if same_text(self.entries[i].0.as_str(), key) {
                return Some(&self.entries[i].1);
            }
        }
        None
    }
}

/// Declarations by their names in lower case.
pub open spec fn indexed(decls: Seq<TypeDeclView>) -> Map<Seq<char>, TypeDeclView>
    decreases decls.len(),
{
    if decls.len() == 0 {
        Map::empty()
    } else {
        indexed(decls.drop_last()).insert(text::in_lower_case(decls.last().name), decls.last())
    }
}

/// Indexes declarations by their names in lower case, which is how both sides
/// of a comparison look one up.
pub fn index_by_name(decls: Vec<TypeDecl>) -> (index: TypeIndex)
    ensures
        index@ == indexed(decl_views(decls@)),
{
    let ghost all = decl_views(decls@);
    let mut index: TypeIndex = TypeIndex::new();
    assert(all.take(0) =~= Seq::empty());
    for decl in it: decls
        invariant
            all == decl_views(it.seq()),
            index@ == indexed(all.take(it.index() as int)),
    {
        let key: String = lower_case(decl.name.as_str());
        assert(all.take(it.index() as int + 1).drop_last() =~= all.take(it.index() as int));
        index.insert(key, decl);
    }
    assert(all.take(all.len() as int) =~= all);
    index
}

/// What a comparison found. Empty where the two sides agree.
#[derive(Debug, Clone)]
pub struct DeclarationDrift {
    /// Types that are derived and that the other side has never heard of.
    pub missing: Vec<String>,
    /// The name of a type, what is derived, and what the other side says.
    pub differs: Vec<(String, String, String)>,
}

/// What a [`DeclarationDrift`] says.
#[verifier::ext_equal]
pub struct DriftView {
    pub missing: Seq<Seq<char>>,
    pub differs: Seq<(Seq<char>, Seq<char>, Seq<char>)>,
}

impl View for DeclarationDrift {
    type V = DriftView;

    open spec fn view(&self) -> DriftView {
        DriftView {
            missing: Seq::new(self.missing@.len(), |i: int| self.missing@[i]@),
            differs: Seq::new(
                self.differs@.len(),
                |i: int| (self.differs@[i].0@, self.differs@[i].1@, self.differs@[i].2@),
            ),
        }
    }
}

impl DriftView {
    /// Whether nothing was found.
    pub open spec fn clean(self) -> bool {
        self.missing.len() == 0 && self.differs.len() == 0
    }
}

/// The finding of no difference.
pub open spec fn no_drift() -> DriftView {
    DriftView { missing: Seq::empty(), differs: Seq::empty() }
}

impl Default for DeclarationDrift {
    fn default() -> (drift: Self)
        ensures
            drift@ == no_drift(),
    {
        let drift = DeclarationDrift { missing: Vec::new(), differs: Vec::new() };
        assert(drift@ =~= no_drift());
        drift
    }
}

/// What the finding on one type adds: the type's name where nothing is
/// stored, both texts where they differ, and nothing where they are the same.
pub open spec fn with_finding(
    drift: DriftView,
    name: Seq<char>,
    derived: Seq<char>,
    found: Option<Seq<char>>,
) -> DriftView {
    match found {
        None => DriftView { missing: drift.missing.push(name), ..drift },
        Some(stored) => if stored != derived {
            DriftView { differs: drift.differs.push((name, derived, stored)), ..drift }
        } else {
            drift
        },
    }
}

/// The finding on declarations against stored ones.
pub open spec fn drift_of(
    decls: Seq<TypeDeclView>,
    stored: Map<Seq<char>, TypeDeclView>,
) -> DriftView
    decreases decls.len(),
{
    if decls.len() == 0 {
        no_drift()
    } else {
        let decl = decls.last();
        let key = text::in_lower_case(decl.name);
        with_finding(
            drift_of(decls.drop_last(), stored),
            decl.name,
            canonical_text(decl),
            if stored.contains_key(key) {
                Some(canonical_text(stored[key]))
            } else {
                None
            },
        )
    }
}

impl DeclarationDrift {
    /// Whether the two sides agree.
    pub fn is_empty(&self) -> (empty: bool)
        ensures
            empty == self@.clean(),
    {
        self.missing.len() == 0 && self.differs.len() == 0
    }

    /// Adds the finding on one type: `derived` is its canonical text, `found`
    /// that of what is stored under its name.
    pub fn add_finding(&mut self, name: &str, derived: String, found: Option<String>)
        ensures
            final(self)@ == with_finding(
                old(self)@,
                name@,
                derived@,
                match found {
                    Some(stored) => Some(stored@),
                    None => None,
                },
            ),
    {
        match found {
            None => {
                self.missing.push(name.to_owned());
                assert(self@ =~= with_finding(old(self)@, name@, derived@, None));
            },
            Some(stored) => {
                let ghost texts = (name@, derived@, stored@);
                if !same_text(stored.as_str(), derived.as_str()) {
                    self.differs.push((name.to_owned(), derived, stored));
                    assert(self@ =~= with_finding(old(self)@, texts.0, texts.1, Some(texts.2)));
                }
            },
        }
    }
}

/// Checks every declaration in `derived_ddl` against stored ones.
///
/// In one direction only: what is stored and not derived is no finding.
/// Superseded types and domains live in a database for ever.
pub fn check_declarations(derived_ddl: &str, stored: &TypeIndex) -> (drift: DeclarationDrift)
    ensures
        drift@ == drift_of(decls_in(derived_ddl@), stored@),
{
    let mut drift: DeclarationDrift = DeclarationDrift::default();
    let decls: Vec<TypeDecl> = parse_create_types(derived_ddl);
    let ghost all = decl_views(decls@);
    let mut i: usize = 0;
    assert(all.take(0) =~= Seq::empty());
    while i < decls.len()
        invariant
            i <= decls@.len(),
            all == decl_views(decls@),
            drift@ == drift_of(all.take(i as int), stored@),
        decreases decls@.len() - i,
    {
        let decl: &TypeDecl = &decls[i];
        assert(all.take(i + 1).drop_last() =~= all.take(i as int));
        let found: Option<String> = match stored.get(lower_case(decl.name.as_str()).as_str()) {
            Some(other) => Some(other.canonical()),
            None => None,
        };
        drift.add_finding(decl.name.as_str(), decl.canonical(), found);
        i = i + 1;
    }
    assert(all.take(all.len() as int) =~= all);
    drift
}

/// The lines on the missing types from `i` on.
pub open spec fn missing_lines(missing: Seq<Seq<char>>, i: int) -> Seq<char>
    decreases missing.len() - i,
{
    if i < 0 || i >= missing.len() {
        Seq::empty()
    } else {
        "  "@ + missing[i] + ": not declared\n"@ + missing_lines(missing, i + 1)
    }
}

/// The lines on the differing types from `i` on.
pub open spec fn differing_lines(
    differs: Seq<(Seq<char>, Seq<char>, Seq<char>)>,
    i: int,
) -> Seq<char>
    decreases differs.len() - i,
{
    if i < 0 || i >= differs.len() {
        Seq::empty()
    } else {
        "  "@ + differs[i].0 + ":\n    derive: "@ + differs[i].1 + "\n    stored: "@ + differs[i].2
            + "\n"@ + differing_lines(differs, i + 1)
    }
}

impl DeclarationDrift {
    /// The finding in words: a line for each missing type, three for each
    /// that differs.
    pub fn describe(&self) -> (lines: String)
        ensures
            lines@ == missing_lines(self@.missing, 0) + differing_lines(self@.differs, 0),
    {
        let mut lines: String = String::new();
        let ghost missing = self@.missing;
        let ghost differs = self@.differs;
        let mut i: usize = 0;
        assert(lines@ + missing_lines(missing, 0) =~= missing_lines(missing, 0));
        while i < self.missing.len()
            invariant
                i <= self.missing@.len(),
                missing == self@.missing,
                lines@ + missing_lines(missing, i as int) == missing_lines(missing, 0),
            decreases self.missing@.len() - i,
        {
            let ghost before = lines@;
            lines.append("  ");
            lines.append(self.missing[i].as_str());
            lines.append(": not declared\n");
            assert(lines@ + missing_lines(missing, i + 1) =~= before + missing_lines(
                missing,
                i as int,
            ));
            i = i + 1;
        }
        let ghost head = missing_lines(missing, 0);
        assert(lines@ =~= head);
        let mut j: usize = 0;
        while j < self.differs.len()
            invariant
                j <= self.differs@.len(),
                differs == self@.differs,
                lines@ + differing_lines(differs, j as int) == head + differing_lines(differs, 0),
            decreases self.differs@.len() - j,
        {
            let ghost before = lines@;
            let (name, derived, stored): &(String, String, String) = &self.differs[j];
            lines.append("  ");
            lines.append(name.as_str());
            lines.append(":\n    derive: ");
            lines.append(derived.as_str());
            lines.append("\n    stored: ");
            lines.append(stored.as_str());
            lines.append("\n");
            assert(lines@ + differing_lines(differs, j + 1) =~= before + differing_lines(
                differs,
                j as int,
            ));
            j = j + 1;
        }
        assert(lines@ =~= head + differing_lines(differs, 0));
        lines
    }
}

// ---------------------------------------------------------------------------
// What a comparison ignores, and what it does not
// ---------------------------------------------------------------------------

/// Case is no drift: declarations that are the same in lower case have the
/// same key.
pub proof fn case_is_no_drift(a: TypeDeclView, b: TypeDeclView)
    ensures
        lowered(a) == lowered(b) ==> canonical_text(a) == canonical_text(b),
{
}

/// Whether a comma behind `s` would be its first one outside parentheses.
pub open spec fn closed_piece(s: Seq<char>) -> bool {
    piece_end(s.push(','), 0, 0) == s.len()
}

/// Whether the parts of a declaration can be told apart on its line: no space
/// in its name or in a member's name, and no comma in a member but inside
/// parentheses that the member closes.
pub open spec fn separable(decl: TypeDeclView) -> bool {
    &&& !decl.name.contains(' ')
    &&& forall|i: int|
        0 <= i < decl.members.len() ==> !(#[trigger] decl.members[i]).0.contains(' ')
            && closed_piece(member_text(decl.members[i]))
}

/// Where `piece_end` stops before the end, what follows does not matter.
proof fn lemma_piece_end_prefix(s: Seq<char>, t: Seq<char>, i: int, depth: nat)
    requires
        0 <= i <= s.len(),
        piece_end(s, i, depth) < s.len(),
    ensures
        piece_end(s + t, i, depth) == piece_end(s, i, depth),
    decreases s.len() - i,
{
    assert((s + t)[i] == s[i]);
    if !(s[i] == ',' && depth == 0) {
        if s[i] == '(' {
            lemma_piece_end_prefix(s, t, i + 1, depth + 1);
        } else if s[i] == ')' && depth > 0 {
            lemma_piece_end_prefix(s, t, i + 1, (depth - 1) as nat);
        } else {
            lemma_piece_end_prefix(s, t, i + 1, depth);
        }
    }
}

/// Where a comma behind `s` is the first, `s` itself has none.
proof fn lemma_piece_end_of_closed(s: Seq<char>, i: int, depth: nat)
    requires
        0 <= i <= s.len(),
        piece_end(s.push(','), i, depth) == s.len(),
    ensures
        piece_end(s, i, depth) == s.len(),
    decreases s.len() - i,
{
    if i < s.len() {
        assert(s.push(',')[i] == s[i]);
        if !(s[i] == ',' && depth == 0) {
            if s[i] == '(' {
                lemma_piece_end_of_closed(s, i + 1, depth + 1);
            } else if s[i] == ')' && depth > 0 {
                lemma_piece_end_of_closed(s, i + 1, (depth - 1) as nat);
            } else {
                lemma_piece_end_of_closed(s, i + 1, depth);
            }
        }
    }
}

proof fn lemma_first_member(members: Seq<(Seq<char>, Seq<char>)>, i: int)
    requires
        0 <= i < members.len(),
        closed_piece(member_text(members[i])),
    ensures
        ({
            let line = members_text(members, i);
            let end = piece_end(line, 0, 0);
            &&& 0 < end <= line.len()
            &&& line.take(end) == member_text(members[i])
            &&& end < line.len() <==> i + 1 < members.len()
            &&& i + 1 < members.len() ==> line.skip(end + 2) == members_text(members, i + 1)
        }),
{
    let line = members_text(members, i);
    let first = member_text(members[i]);
    if i + 1 == members.len() {
        lemma_piece_end_of_closed(first, 0, 0);
        assert(line.take(first.len() as int) =~= first);
    } else {
        let rest = seq![' '] + members_text(members, i + 1);
        assert(line =~= first.push(',') + rest);
        lemma_piece_end_prefix(first.push(','), rest, 0, 0);
        assert(line.take(first.len() as int) =~= first);
        assert(line.skip(first.len() as int + 2) =~= members_text(members, i + 1));
    }
}

proof fn lemma_member_text_injective(a: (Seq<char>, Seq<char>), b: (Seq<char>, Seq<char>))
    requires
        !a.0.contains(' '),
        !b.0.contains(' '),
        member_text(a) == member_text(b),
    ensures
        a == b,
{
    let line = member_text(a);
    assert(line[a.0.len() as int] == ' ');
    assert(member_text(b)[b.0.len() as int] == ' ');
    if a.0.len() < b.0.len() {
        assert(b.0[a.0.len() as int] == ' ');
    }
    if b.0.len() < a.0.len() {
        assert(a.0[b.0.len() as int] == ' ');
    }
    assert(a.0 =~= line.take(a.0.len() as int));
    assert(b.0 =~= member_text(b).take(b.0.len() as int));
    assert(a.1 =~= line.skip(a.0.len() as int + 1));
    assert(b.1 =~= member_text(b).skip(b.0.len() as int + 1));
}

proof fn lemma_members_text_injective(
    a: Seq<(Seq<char>, Seq<char>)>,
    b: Seq<(Seq<char>, Seq<char>)>,
    i: int,
)
    requires
        0 <= i <= a.len(),
        i <= b.len(),
        forall|k: int|
            0 <= k < a.len() ==> !(#[trigger] a[k]).0.contains(' ') && closed_piece(
                member_text(a[k]),
            ),
        forall|k: int|
            0 <= k < b.len() ==> !(#[trigger] b[k]).0.contains(' ') && closed_piece(
                member_text(b[k]),
            ),
        members_text(a, i) == members_text(b, i),
    ensures
        a.len() == b.len(),
        forall|k: int| i <= k < a.len() ==> a[k] == b[k],
    decreases a.len() - i,
{
    if i < a.len() {
        lemma_first_member(a, i);
    }
    if i < b.len() {
        lemma_first_member(b, i);
    }
    if i < a.len() && i < b.len() {
        lemma_member_text_injective(a[i], b[i]);
        if i + 1 < a.len() {
            lemma_members_text_injective(a, b, i + 1);
        }
    }
}

/// A line tells its declaration: two declarations whose parts can be told
/// apart and that render alike are the same, members in the same order.
pub proof fn rendering_is_injective(a: TypeDeclView, b: TypeDeclView)
    requires
        separable(a),
        separable(b),
        decl_text(a) == decl_text(b),
    ensures
        a == b,
{
    reveal_strlit("CREATE TYPE ");
    reveal_strlit(" AS ");
    reveal_strlit("STRUCT");
    reveal_strlit("UNION");
    reveal_strlit("(");
    reveal_strlit(")");
    let line = decl_text(a);
    let n = a.name.len() as int;
    let m = b.name.len() as int;
    assert(line[12 + n] == ' ');
    assert(decl_text(b)[12 + m] == ' ');
    if n < m {
        assert(decl_text(b)[12 + n] == b.name[n]);
    }
    if m < n {
        assert(line[12 + m] == a.name[m]);
    }
    assert(a.name =~= line.subrange(12, 12 + n));
    assert(b.name =~= decl_text(b).subrange(12, 12 + m));
    assert(line[16 + n] == a.kind.keyword()[0]);
    assert(decl_text(b)[16 + n] == b.kind.keyword()[0]);
    assert(a.kind == b.kind);
    let k = 17 + n + a.kind.keyword().len();
    assert(members_text(a.members, 0) =~= line.subrange(k, line.len() - 1));
    assert(members_text(b.members, 0) =~= decl_text(b).subrange(k, line.len() - 1));
    lemma_members_text_injective(a.members, b.members, 0);
    assert(a.members =~= b.members);
}

/// A key tells the layout: declarations with the same key are, in lower case,
/// the same declaration, provided that its parts can be told apart there.
pub proof fn canonical_tells_layouts_apart(a: TypeDeclView, b: TypeDeclView)
    ensures
        separable(lowered(a)) && separable(lowered(b)) && canonical_text(a) == canonical_text(b)
            ==> lowered(a) == lowered(b),
{
    if separable(lowered(a)) && separable(lowered(b)) && canonical_text(a) == canonical_text(b) {
        rendering_is_injective(lowered(a), lowered(b));
    }
}

/// The order of members counts: with two members exchanged that differ in
/// lower case, a declaration has another key.
pub proof fn member_order_counts(decl: TypeDeclView, i: int, j: int)
    requires
        0 <= i < decl.members.len(),
        0 <= j < decl.members.len(),
    ensures
        ({
            let swapped = TypeDeclView {
                members: decl.members.update(i, decl.members[j]).update(j, decl.members[i]),
                ..decl
            };
            separable(lowered(decl)) && lowered(decl).members[i] != lowered(decl).members[j]
                ==> canonical_text(swapped) != canonical_text(decl)
        }),
{
    let swapped = TypeDeclView {
        members: decl.members.update(i, decl.members[j]).update(j, decl.members[i]),
        ..decl
    };
    let low = lowered(decl);
    let other = lowered(swapped);
    if separable(low) && low.members[i] != low.members[j] {
        assert forall|k: int| 0 <= k < other.members.len() implies !(
        #[trigger] other.members[k]).0.contains(' ') && closed_piece(
            member_text(other.members[k]),
        ) by {
            let source = if k == i {
                j
            } else if k == j {
                i
            } else {
                k
            };
            assert(other.members[k] == low.members[source]);
        }
        assert(separable(other));
        assert(other.members[i] == low.members[j]);
        canonical_tells_layouts_apart(decl, swapped);
    }
}

/// A comparison finds nothing exactly where every declaration is stored under
/// its name and has the same key there.
pub proof fn clean_means_declared_alike(
    decls: Seq<TypeDeclView>,
    stored: Map<Seq<char>, TypeDeclView>,
)
    ensures
        drift_of(decls, stored).clean() <==> forall|i: int|
            #![trigger decls[i]]
            0 <= i < decls.len() ==> {
                let key = text::in_lower_case(decls[i].name);
                stored.contains_key(key) && canonical_text(stored[key]) == canonical_text(decls[i])
            },
    decreases decls.len(),
{
    if decls.len() > 0 {
        let front = decls.drop_last();
        clean_means_declared_alike(front, stored);
        assert(forall|i: int| 0 <= i < front.len() ==> front[i] == #[trigger] decls[i]);
        assert(decls.last() == decls[decls.len() - 1]);
        assert forall|i: int| 0 <= i < front.len() implies decls[i] == #[trigger] front[i] by {}
    }
}

/// What is stored and not derived is no finding.
pub proof fn extra_stored_types_do_not_count(
    decls: Seq<TypeDeclView>,
    stored: Map<Seq<char>, TypeDeclView>,
    key: Seq<char>,
    extra: TypeDeclView,
)
    ensures
        (forall|i: int| 0 <= i < decls.len() ==> text::in_lower_case((#[trigger] decls[i]).name) != key)
            ==> drift_of(decls, stored.insert(key, extra)) == drift_of(decls, stored),
    decreases decls.len(),
{
    if decls.len() > 0 && forall|i: int|
        0 <= i < decls.len() ==> text::in_lower_case((#[trigger] decls[i]).name) != key {
        let front = decls.drop_last();
        assert forall|i: int| 0 <= i < front.len() implies text::in_lower_case(
            (#[trigger] front[i]).name,
        ) != key by {
            assert(front[i] == decls[i]);
        }
        extra_stored_types_do_not_count(front, stored, key, extra);
        assert(decls.last() == decls[decls.len() - 1]);
    }
}

/// The last declaration of a name is the one that an index has under it.
pub proof fn index_keeps_the_last(decls: Seq<TypeDeclView>, i: int)
    requires
        0 <= i < decls.len(),
    ensures
        ({
            let key = text::in_lower_case(decls[i].name);
            &&& indexed(decls).contains_key(key)
            &&& (forall|k: int|
                i < k < decls.len() ==> text::in_lower_case((#[trigger] decls[k]).name) != key)
                ==> indexed(decls)[key] == decls[i]
        }),
    decreases decls.len(),
{
    if i + 1 < decls.len() {
        let front = decls.drop_last();
        index_keeps_the_last(front, i);
        assert(front[i] == decls[i]);
        assert(forall|k: int| i < k < front.len() ==> front[k] == #[trigger] decls[k]);
        assert forall|k: int| i < k < front.len() implies decls[k] == #[trigger] front[k] by {}
        assert(decls.last() == decls[decls.len() - 1]);
    }
}

/// Declarations that share no name agree with an index of themselves.
pub proof fn declarations_agree_with_themselves(decls: Seq<TypeDeclView>)
    ensures
        (forall|i: int, j: int|
            0 <= i < j < decls.len() ==> text::in_lower_case((#[trigger] decls[i]).name)
                != text::in_lower_case((#[trigger] decls[j]).name)) ==> drift_of(decls, indexed(decls)).clean(),
{
    if forall|i: int, j: int|
        0 <= i < j < decls.len() ==> text::in_lower_case((#[trigger] decls[i]).name)
            != text::in_lower_case((#[trigger] decls[j]).name) {
        assert forall|i: int| #![trigger decls[i]] 0 <= i < decls.len() implies {
            let key = text::in_lower_case(decls[i].name);
            indexed(decls).contains_key(key) && canonical_text(indexed(decls)[key])
                == canonical_text(decls[i])
        } by {
            index_keeps_the_last(decls, i);
        }
        clean_means_declared_alike(decls, indexed(decls));
    }
}

/// Whether a text read from `i` on, in or outside a string literal, ends
/// inside one.
pub open spec fn ends_in_string(s: Seq<char>, i: int, in_string: bool) -> bool
    decreases s.len() - i,
    via ends_in_string_decreases
{
    if i < 0 || i >= s.len() {
        in_string
    } else if comment_at(s, i, in_string) {
        ends_in_string(s, line_end(s, i), in_string)
    } else {
        ends_in_string(s, i + 1, if s[i] == '\'' {
            !in_string
        } else {
            in_string
        })
    }
}

#[via_fn]
proof fn ends_in_string_decreases(s: Seq<char>, i: int, in_string: bool) {
    if 0 <= i && comment_at(s, i, in_string) {
        lemma_line_end(s, i + 1);
        assert(line_end(s, i) == line_end(s, i + 1));
    }
}

/// The end of a line that has a line feed does not depend on what follows it;
/// of one that has none, the search goes on behind it.
pub(crate) proof fn lemma_line_end_append(s: Seq<char>, t: Seq<char>, i: int)
    requires
        0 <= i <= s.len(),
    ensures
        line_end(s, i) < s.len() ==> line_end(s + t, i) == line_end(s, i),
        line_end(s, i) == s.len() ==> line_end(s + t, i) == line_end(s + t, s.len() as int),
    decreases s.len() - i,
{
    if i < s.len() {
        assert((s + t)[i] == s[i]);
        if s[i] != '\n' {
            lemma_line_end_append(s, t, i + 1);
            lemma_line_end(s, i + 1);
        }
    }
}

/// The line behind a prefix ends where it ends on its own.
proof fn lemma_line_end_shift(s: Seq<char>, t: Seq<char>, i: int)
    requires
        0 <= i <= t.len(),
    ensures
        line_end(s + t, s.len() + i) == s.len() + line_end(t, i),
    decreases t.len() - i,
{
    if i < t.len() {
        assert((s + t)[s.len() + i] == t[i]);
        if t[i] != '\n' {
            lemma_line_end_shift(s, t, i + 1);
        }
    }
}

/// What is stripped behind a prefix is what is stripped of it on its own.
pub(crate) proof fn lemma_stripped_shift(s: Seq<char>, t: Seq<char>, i: int, in_string: bool)
    requires
        0 <= i <= t.len(),
    ensures
        stripped(s + t, s.len() + i, in_string) == stripped(t, i, in_string),
    decreases t.len() - i,
{
    let all = s + t;
    let n = s.len() as int;
    if i < t.len() {
        assert(all[n + i] == t[i]);
        if i + 1 < t.len() {
            assert(all[n + i + 1] == t[i + 1]);
        }
        if comment_at(t, i, in_string) {
            lemma_line_end(t, i + 1);
            assert(line_end(t, i) == line_end(t, i + 1));
            lemma_line_end_shift(s, t, i);
            lemma_stripped_shift(s, t, line_end(t, i), in_string);
        } else {
            let next = if t[i] == '\'' {
                !in_string
            } else {
                in_string
            };
            lemma_stripped_shift(s, t, i + 1, next);
        }
    }
}

/// A line feed and what follows it, behind a text that ends outside a string
/// literal, is stripped the same whatever comment runs up to it.
pub(crate) proof fn lemma_comment_ignored(
    a: Seq<char>,
    c: Seq<char>,
    b: Seq<char>,
    i: int,
    in_string: bool,
)
    requires
        0 <= i <= a.len(),
        a.len() > 0 ==> a.last() != '-',
        !ends_in_string(a, i, in_string),
        !c.contains('\n'),
    ensures
        stripped(a + (seq!['-', '-'] + c + seq!['\n'] + b), i, in_string) == stripped(
            a + (seq!['\n'] + b),
            i,
            in_string,
        ),
    decreases a.len() - i,
{
    let tail = seq!['\n'] + b;
    let noted = seq!['-', '-'] + c + seq!['\n'] + b;
    let with = a + noted;
    let without = a + tail;
    let n = a.len() as int;
    let skip = 2 + c.len() as int;
    assert(noted.skip(skip) =~= tail);
    assert(noted =~= noted.take(skip) + tail);
    assert forall|k: int| 0 <= k < skip implies noted[k] != '\n' by {
        if k >= 2 {
            assert(c.contains(c[k - 2]));
        }
    }
    lemma_no_feed(noted, 0, skip);
    assert(noted[skip] == '\n');
    assert(line_end(noted, 0) == skip);
    lemma_line_end_shift(a, noted, 0);
    assert(with =~= (a + noted.take(skip)) + tail);
    lemma_stripped_shift(a + noted.take(skip), tail, 0, false);
    lemma_stripped_shift(a, tail, 0, false);
    assert(stripped(with, n + skip, false) == stripped(without, n, false));
    if i == n {
        assert(with[n] == '-' && with[n + 1] == '-');
        assert(comment_at(with, n, false));
    } else {
        assert(with[i] == a[i] && without[i] == a[i]);
        if i + 1 < n {
            assert(with[i + 1] == a[i + 1] && without[i + 1] == a[i + 1]);
        } else {
            assert(a[i] != '-');
        }
        assert(comment_at(with, i, in_string) == comment_at(a, i, in_string));
        assert(comment_at(without, i, in_string) == comment_at(a, i, in_string));
        if comment_at(a, i, in_string) {
            lemma_line_end(a, i + 1);
            assert(line_end(a, i) == line_end(a, i + 1));
            lemma_line_end_append(a, noted, i);
            lemma_line_end_append(a, tail, i);
            let end = line_end(a, i);
            if end < n {
                lemma_comment_ignored(a, c, b, end, in_string);
            } else {
                assert(line_end(with, i) == n + skip);
                assert(without[n] == '\n');
                assert(line_end(without, i) == n);
            }
        } else {
            let next = if a[i] == '\'' {
                !in_string
            } else {
                in_string
            };
            lemma_comment_ignored(a, c, b, i + 1, next);
        }
    }
}

proof fn lemma_no_feed(s: Seq<char>, i: int, to: int)
    requires
        0 <= i <= to <= s.len(),
        forall|k: int| i <= k < to ==> s[k] != '\n',
    ensures
        line_end(s, i) == line_end(s, to),
    decreases to - i,
{
    if i < to {
        lemma_no_feed(s, i + 1, to);
    }
}

/// A comment is ignored: with it and without it, the same declarations are
/// read. It stands outside a string literal, behind anything but a dash.
pub proof fn comments_do_not_count(a: Seq<char>, c: Seq<char>, b: Seq<char>)
    requires
        !ends_in_string(a, 0, false),
        a.len() > 0 ==> a.last() != '-',
        !c.contains('\n'),
    ensures
        decls_in(a + (seq!['-', '-'] + c + seq!['\n'] + b)) == decls_in(a + (seq!['\n'] + b)),
{
    lemma_comment_ignored(a, c, b, 0, false);
}

/// Whether `s` is white space throughout.
pub open spec fn blank(s: Seq<char>) -> bool {
    forall|i: int| 0 <= i < s.len() ==> text::whitespace(#[trigger] s[i])
}

pub(crate) proof fn lemma_blank_run(s: Seq<char>, i: int, to: int)
    requires
        0 <= i <= to <= s.len(),
        forall|k: int| i <= k < to ==> text::whitespace(#[trigger] s[k]),
        to < s.len() ==> !text::whitespace(s[to]),
    ensures
        ws_end(s, i) == to,
    decreases to - i,
{
    if i < to {
        lemma_blank_run(s, i + 1, to);
    }
}

pub(crate) proof fn lemma_word_run(s: Seq<char>, i: int, to: int)
    requires
        0 <= i <= to <= s.len(),
        forall|k: int| i <= k < to ==> !text::whitespace(#[trigger] s[k]),
        to < s.len() ==> text::whitespace(s[to]),
    ensures
        word_end(s, i) == to,
    decreases to - i,
{
    if i < to {
        lemma_word_run(s, i + 1, to);
    }
}

pub(crate) proof fn lemma_trim_run(s: Seq<char>, i: int, to: int)
    requires
        0 < to <= i <= s.len(),
        forall|k: int| to <= k < i ==> text::whitespace(#[trigger] s[k]),
        !text::whitespace(s[to - 1]),
    ensures
        trimmed_end(s, i) == to,
    decreases i,
{
    if i > to {
        lemma_trim_run(s, i - 1, to);
    }
}

/// White space around and inside a member is ignored: however it is spaced,
/// the member is its first word and, with single spaces, the words behind it.
pub proof fn member_spacing_does_not_count(
    before: Seq<char>,
    name: Seq<char>,
    between: Seq<char>,
    ty: Seq<char>,
    after: Seq<char>,
)
    requires
        blank(before),
        blank(between),
        blank(after),
        between.len() > 0,
        name.len() > 0,
        forall|i: int| 0 <= i < name.len() ==> !text::whitespace(#[trigger] name[i]),
        ty.len() > 0,
        !text::whitespace(ty[0]),
        !text::whitespace(ty.last()),
    ensures
        member_of(before + name + between + ty + after) == Some((name, squeezed(ty, 0))),
{
    let raw = before + name + between + ty + after;
    let p = before.len() as int;
    let q = raw.len() - after.len();
    assert(raw[p] == name[0]);
    assert forall|k: int| 0 <= k < p implies text::whitespace(#[trigger] raw[k]) by {
        assert(raw[k] == before[k]);
    }
    lemma_blank_run(raw, 0, p);
    assert(raw[q - 1] == ty.last());
    assert forall|k: int| q <= k < raw.len() implies text::whitespace(#[trigger] raw[k]) by {
        assert(raw[k] == after[k - q]);
    }
    lemma_trim_run(raw, raw.len() as int, q);
    let s = trimmed(raw);
    assert(s =~= name + between + ty);
    let n = name.len() as int;
    assert(s[n] == between[0]);
    assert forall|k: int| 0 <= k < n implies !text::whitespace(#[trigger] s[k]) by {
        assert(s[k] == name[k]);
    }
    lemma_word_run(s, 0, n);
    assert(s.take(n) =~= name);
    let gap = between.skip(1);
    let rest = s.skip(n + 1);
    assert(rest =~= gap + ty);
    assert forall|k: int| 0 <= k < gap.len() implies text::whitespace(#[trigger] rest[k]) by {
        assert(rest[k] == between[k + 1]);
    }
    assert(rest[gap.len() as int] == ty[0]);
    lemma_blank_run(rest, 0, gap.len() as int);
    assert(squeezed(rest, 0) == squeezed(rest, gap.len() as int)) by {
        lemma_ws_end_idempotent(rest, 0);
    }
    lemma_squeezed_shift(gap, ty, 0);
}

proof fn lemma_ws_end_idempotent(s: Seq<char>, i: int)
    requires
        0 <= i <= s.len(),
    ensures
        ws_end(s, ws_end(s, i)) == ws_end(s, i),
        ws_end(s, i) >= i,
{
    lemma_ws_end(s, i);
}

pub(crate) proof fn lemma_squeezed_shift(s: Seq<char>, t: Seq<char>, i: int)
    requires
        0 <= i <= t.len(),
    ensures
        squeezed(s + t, s.len() + i) == squeezed(t, i),
    decreases t.len() - i,
{
    let all = s + t;
    let n = s.len() as int;
    lemma_ws_end(t, i);
    lemma_ws_end_shift(s, t, i);
    let start = ws_end(t, i);
    if start < t.len() {
        lemma_word_end(t, start + 1);
        assert(word_end(t, start) == word_end(t, start + 1));
        lemma_word_end_shift(s, t, start);
        let end = word_end(t, start);
        lemma_squeezed_shift(s, t, end);
        assert(all.subrange(n + start, n + end) =~= t.subrange(start, end));
    }
}

pub(crate) proof fn lemma_ws_end_shift(s: Seq<char>, t: Seq<char>, i: int)
    requires
        0 <= i <= t.len(),
    ensures
        ws_end(s + t, s.len() + i) == s.len() + ws_end(t, i),
    decreases t.len() - i,
{
    if i < t.len() {
        assert((s + t)[s.len() + i] == t[i]);
        if text::whitespace(t[i]) {
            lemma_ws_end_shift(s, t, i + 1);
        }
    }
}

proof fn lemma_word_end_shift(s: Seq<char>, t: Seq<char>, i: int)
    requires
        0 <= i <= t.len(),
    ensures
        word_end(s + t, s.len() + i) == s.len() + word_end(t, i),
    decreases t.len() - i,
{
    if i < t.len() {
        assert((s + t)[s.len() + i] == t[i]);
        if !text::whitespace(t[i]) {
            lemma_word_end_shift(s, t, i + 1);
        }
    }
}

/// Whether `s` is white space that sets identifiers apart.
pub open spec fn gap(s: Seq<char>) -> bool {
    forall|i: int|
        0 <= i < s.len() ==> text::whitespace(#[trigger] s[i]) && !ident_char(s[i])
}

/// Whether `s` is one identifier.
pub open spec fn identifier(s: Seq<char>) -> bool {
    &&& s.len() > 0
    &&& forall|i: int|
        0 <= i < s.len() ==> ident_char(#[trigger] s[i]) && !text::whitespace(s[i])
}

/// The parts of a declaration behind its `CREATE`, in order.
pub struct Spelling {
    pub before_type: Seq<char>,
    pub type_word: Seq<char>,
    pub before_name: Seq<char>,
    pub name: Seq<char>,
    pub before_as: Seq<char>,
    pub as_word: Seq<char>,
    pub before_kind: Seq<char>,
    pub kind_word: Seq<char>,
    pub before_body: Seq<char>,
    pub body: Seq<char>,
    pub rest: Seq<char>,
}

impl Spelling {
    /// The parts put together.
    pub open spec fn text(self) -> Seq<char> {
        self.before_type + (self.type_word + (self.before_name + (self.name + (self.before_as + (
        self.as_word + (self.before_kind + (self.kind_word + (self.before_body + (seq!['(']
            + self.body + seq![')'] + self.rest)))))))))
    }

    /// Whether the words are identifiers with white space between them, the
    /// keywords are right, and the parenthesis behind the body is the one
    /// that closes it.
    pub open spec fn well_spelled(self) -> bool {
        &&& gap(self.before_type) && gap(self.before_name) && gap(self.before_as) && gap(
            self.before_kind,
        ) && gap(self.before_body)
        &&& self.before_name.len() > 0 && self.before_as.len() > 0 && self.before_kind.len() > 0
        &&& identifier(self.type_word) && identifier(self.name) && identifier(self.as_word)
            && identifier(self.kind_word)
        &&& text::same_ignoring_ascii_case(self.type_word, "type"@)
        &&& text::same_ignoring_ascii_case(self.as_word, "as"@)
        &&& kind_of(text::in_lower_case(self.kind_word)) is Some
        &&& closing(self.body.push(')'), 0, 1) == Some(self.body.len() as int)
    }
}

proof fn lemma_ident_run(s: Seq<char>, i: int, to: int)
    requires
        0 <= i <= to <= s.len(),
        forall|k: int| i <= k < to ==> ident_char(#[trigger] s[k]),
        to < s.len() ==> !ident_char(s[to]),
    ensures
        ident_end(s, i) == to,
    decreases to - i,
{
    if i < to {
        lemma_ident_run(s, i + 1, to);
    }
}

/// Behind `head` and a gap, the identifier that stands there is read.
proof fn lemma_ident_read(
    s: Seq<char>,
    head: Seq<char>,
    space: Seq<char>,
    word: Seq<char>,
    tail: Seq<char>,
)
    requires
        s == head + (space + (word + tail)),
        gap(space),
        identifier(word),
        tail.len() > 0 ==> !ident_char(tail[0]),
    ensures
        ident_after(s, head.len() as int) == Some(
            (word, (head.len() + space.len() + word.len()) as int),
        ),
        ws_end(s, head.len() as int) == head.len() + space.len(),
        s == (head + space + word) + tail,
        s == (head + space) + (Seq::<char>::empty() + (word + tail)),
        s[(head.len() + space.len()) as int] == word[0],
{
    assert(s =~= (head + space + word) + tail);
    assert(s =~= (head + space) + (Seq::<char>::empty() + (word + tail)));
    let a = head.len() as int;
    let b = a + space.len();
    let c = b + word.len();
    assert forall|k: int| a <= k < b implies text::whitespace(#[trigger] s[k]) by {
        assert(s[k] == space[k - a]);
    }
    assert(s[b] == word[0]);
    lemma_blank_run(s, a, b);
    assert forall|k: int| b <= k < c implies ident_char(#[trigger] s[k]) by {
        assert(s[k] == word[k - b]);
    }
    if c < s.len() {
        assert(s[c] == tail[0]);
    }
    lemma_ident_run(s, b, c);
    assert(s.subrange(b, c) =~= word);
}

/// The parenthesis that closes a group does not depend on what stands before
/// the group or behind it.
pub(crate) proof fn lemma_closing_inside(
    head: Seq<char>,
    inner: Seq<char>,
    rest: Seq<char>,
    i: int,
    depth: nat,
)
    requires
        0 <= i <= inner.len(),
        closing(inner, i, depth) is Some,
    ensures
        closing(head + inner + rest, head.len() + i, depth) == Some(
            head.len() + closing(inner, i, depth)->0,
        ),
    decreases inner.len() - i,
{
    let s = head + inner + rest;
    assert(s[head.len() + i] == inner[i]);
    if inner[i] == '(' {
        lemma_closing_inside(head, inner, rest, i + 1, depth + 1);
    } else if inner[i] == ')' {
        if depth > 1 {
            lemma_closing_inside(head, inner, rest, i + 1, (depth - 1) as nat);
        }
    } else {
        lemma_closing_inside(head, inner, rest, i + 1, depth);
    }
}

/// White space between the words of a declaration is ignored: however they
/// are spaced, and whatever the case of its keywords, the declaration has
/// that name, that kind and the members that its body spells.
pub proof fn declaration_spacing_does_not_count(parts: Spelling)
    ensures
        parts.well_spelled() ==> decl_at(parts.text(), 0) == Some(
            TypeDeclView {
                name: parts.name,
                kind: kind_of(text::in_lower_case(parts.kind_word))->0,
                members: members_of(parts.body, 0),
            },
        ),
{
    if parts.well_spelled() {
        let s = parts.text();
        let group = seq!['('] + parts.body + seq![')'] + parts.rest;
        let t8 = parts.before_body + group;
        let t6 = parts.before_kind + (parts.kind_word + t8);
        let t4 = parts.before_as + (parts.as_word + t6);
        let t2 = parts.before_name + (parts.name + t4);
        let none = Seq::<char>::empty();
        assert(s == none + (parts.before_type + (parts.type_word + t2))) by {
            assert(none + s =~= s);
        }
        assert(t2[0] == parts.before_name[0]);
        assert(t4[0] == parts.before_as[0]);
        assert(t6[0] == parts.before_kind[0]);
        assert(t8.len() > 0 && !ident_char(t8[0])) by {
            if parts.before_body.len() > 0 {
                assert(t8[0] == parts.before_body[0]);
            } else {
                assert(t8[0] == group[0]);
            }
        }
        lemma_ident_read(s, none, parts.before_type, parts.type_word, t2);
        let h1 = none + parts.before_type + parts.type_word;
        lemma_ident_read(s, h1, parts.before_name, parts.name, t4);
        let h2 = h1 + parts.before_name + parts.name;
        lemma_ident_read(s, h2, parts.before_as, parts.as_word, t6);
        let h3 = h2 + parts.before_as;
        lemma_ident_read(s, h3, none, parts.as_word, t6);
        let h4 = h3 + none + parts.as_word;
        lemma_ident_read(s, h4, parts.before_kind, parts.kind_word, t8);
        let h5 = h4 + parts.before_kind + parts.kind_word;
        lemma_group_read(s, h5, parts.before_body, parts.body, parts.rest);
        assert(parts.as_word[0] != '(');
    }
}

/// Behind `head` and a gap, the group that stands there is read.
proof fn lemma_group_read(
    s: Seq<char>,
    head: Seq<char>,
    space: Seq<char>,
    body: Seq<char>,
    rest: Seq<char>,
)
    requires
        s == head + (space + (seq!['('] + body + seq![')'] + rest)),
        gap(space),
        !text::whitespace('('),
        closing(body.push(')'), 0, 1) == Some(body.len() as int),
    ensures
        group_after(s, head.len() as int) == Some(
            (body, (head.len() + space.len() + body.len() + 2) as int),
        ),
{
    let n = head.len() as int;
    let open = n + space.len();
    assert forall|k: int| n <= k < open implies text::whitespace(#[trigger] s[k]) by {
        assert(s[k] == space[k - n]);
    }
    assert(s[open] == '(');
    lemma_blank_run(s, n, open);
    let front = head + space + seq!['('];
    let inner = body.push(')');
    assert(s =~= front + inner + rest);
    lemma_closing_inside(front, inner, rest, 0, 1);
    assert(s.subrange(open + 1, open + 1 + body.len()) =~= body);
}

impl Spelling {
    /// The parts put together, with a parameter list behind the name.
    pub open spec fn text_with_parameters(self, before: Seq<char>, parameters: Seq<char>) -> Seq<
        char,
    > {
        self.before_type + (self.type_word + (self.before_name + (self.name + (before + (seq!['(']
            + parameters + seq![')'] + (self.before_as + (self.as_word + (self.before_kind + (
        self.kind_word + (self.before_body + (seq!['('] + self.body + seq![')']
            + self.rest)))))))))))
    }
}

/// A parameter list behind the name is passed over: with it and without it,
/// the same declaration is read.
pub proof fn parameter_lists_do_not_count(
    parts: Spelling,
    before: Seq<char>,
    parameters: Seq<char>,
)
    ensures
        parts.well_spelled() && gap(before) && closing(parameters.push(')'), 0, 1) == Some(
            parameters.len() as int,
        ) ==> decl_at(parts.text_with_parameters(before, parameters), 0) == decl_at(
            parts.text(),
            0,
        ),
{
    if parts.well_spelled() && gap(before) && closing(parameters.push(')'), 0, 1) == Some(
        parameters.len() as int,
    ) {
        declaration_spacing_does_not_count(parts);
        lemma_read_with_parameters(
            parts.text_with_parameters(before, parameters),
            parts,
            before,
            parameters,
        );
    }
}

#[verifier::spinoff_prover]
#[verifier::rlimit(100)]
proof fn lemma_read_with_parameters(
    s: Seq<char>,
    parts: Spelling,
    before: Seq<char>,
    parameters: Seq<char>,
)
    requires
        s == parts.text_with_parameters(before, parameters),
        parts.well_spelled(),
        gap(before),
        closing(parameters.push(')'), 0, 1) == Some(parameters.len() as int),
    ensures
        decl_at(s, 0) == Some(
            TypeDeclView {
                name: parts.name,
                kind: kind_of(text::in_lower_case(parts.kind_word))->0,
                members: members_of(parts.body, 0),
            },
        ),
{
    let body = seq!['('] + parts.body + seq![')'] + parts.rest;
    let t8 = parts.before_body + body;
    let t6 = parts.before_kind + (parts.kind_word + t8);
    let t4 = parts.before_as + (parts.as_word + t6);
    let list = seq!['('] + parameters + seq![')'] + t4;
    let t3 = before + list;
    let t2 = parts.before_name + (parts.name + t3);
    let none = Seq::<char>::empty();
    assert(s == none + (parts.before_type + (parts.type_word + t2))) by {
        assert(none + s =~= s);
    }
    assert(t2[0] == parts.before_name[0]);
    assert(!ident_char(t3[0])) by {
        if before.len() > 0 {
            assert(t3[0] == before[0]);
        } else {
            assert(t3[0] == list[0]);
        }
    }
    assert(t6[0] == parts.before_kind[0]);
    assert(t8.len() > 0 && !ident_char(t8[0])) by {
        if parts.before_body.len() > 0 {
            assert(t8[0] == parts.before_body[0]);
        } else {
            assert(t8[0] == body[0]);
        }
    }
    lemma_ident_read(s, none, parts.before_type, parts.type_word, t2);
    let h1 = none + parts.before_type + parts.type_word;
    lemma_ident_read(s, h1, parts.before_name, parts.name, t3);
    let h2 = h1 + parts.before_name + parts.name;
    lemma_parameters_read(s, h2, before, parameters, t4);
    let h4 = h2 + before + seq!['('] + parameters + seq![')'];
    assert(s =~= h4 + t4);
    lemma_ident_read(s, h4, parts.before_as, parts.as_word, t6);
    let h5 = h4 + parts.before_as + parts.as_word;
    lemma_ident_read(s, h5, parts.before_kind, parts.kind_word, t8);
    let h6 = h5 + parts.before_kind + parts.kind_word;
    lemma_group_read(s, h6, parts.before_body, parts.body, parts.rest);
    lemma_decl_of_parts(
        s,
        h1.len() as int,
        parts.name,
        h2.len() as int,
        h4.len() as int,
        h5.len() as int,
        parts.kind_word,
        h6.len() as int,
        parts.body,
    );
}

proof fn lemma_decl_of_parts(
    s: Seq<char>,
    after_type: int,
    name: Seq<char>,
    after_name: int,
    after_params: int,
    after_as: int,
    word: Seq<char>,
    after_kind: int,
    body: Seq<char>,
)
    requires
        after_word(s, 0, "type"@) == Some(after_type),
        ident_after(s, after_type) == Some((name, after_name)),
        params_end(s, after_name) == Some(after_params),
        after_word(s, after_params, "as"@) == Some(after_as),
        ident_after(s, after_as) == Some((word, after_kind)),
        kind_of(text::in_lower_case(word)) is Some,
        group_after(s, after_kind) matches Some((found, _)) && found == body,
    ensures
        decl_at(s, 0) == Some(
            TypeDeclView {
                name,
                kind: kind_of(text::in_lower_case(word))->0,
                members: members_of(body, 0),
            },
        ),
{
}

/// Behind `head` and a gap, the parameter list that stands there is passed
/// over.
proof fn lemma_parameters_read(
    s: Seq<char>,
    head: Seq<char>,
    space: Seq<char>,
    parameters: Seq<char>,
    rest: Seq<char>,
)
    requires
        s == head + (space + (seq!['('] + parameters + seq![')'] + rest)),
        gap(space),
        closing(parameters.push(')'), 0, 1) == Some(parameters.len() as int),
    ensures
        params_end(s, head.len() as int) == Some(
            (head.len() + space.len() + parameters.len() + 2) as int,
        ),
{
    let n = head.len() as int;
    let open = n + space.len();
    let none = Seq::<char>::empty();
    let list = seq!['('] + parameters + seq![')'] + rest;
    assert forall|k: int| n <= k < open implies text::whitespace(#[trigger] s[k]) by {
        assert(s[k] == space[k - n]);
    }
    assert(s[open] == '(');
    lemma_blank_run(s, n, open);
    assert(s =~= (head + space) + (none + list));
    lemma_group_read(s, head + space, none, parameters, rest);
}

/// A statement that is spelled like a declaration, but with another word in
/// the place of a keyword, declares nothing: another thing than a type is
/// created, or a domain, or a type of another kind.
#[verifier::spinoff_prover]
#[verifier::rlimit(100)]
pub proof fn other_statements_declare_nothing(parts: Spelling)
    requires
        gap(parts.before_type) && gap(parts.before_name) && gap(parts.before_as) && gap(
            parts.before_kind,
        ) && gap(parts.before_body),
        parts.before_name.len() > 0 && parts.before_as.len() > 0 && parts.before_kind.len() > 0,
        identifier(parts.type_word) && identifier(parts.name) && identifier(parts.as_word)
            && identifier(parts.kind_word),
    ensures
        !text::same_ignoring_ascii_case(parts.type_word, "type"@) ==> decl_at(
            parts.text(),
            0,
        ) is None,
        !text::same_ignoring_ascii_case(parts.as_word, "as"@) ==> decl_at(parts.text(), 0) is None,
        kind_of(text::in_lower_case(parts.kind_word)) is None ==> decl_at(parts.text(), 0) is None,
{
    let s = parts.text();
    let group = seq!['('] + parts.body + seq![')'] + parts.rest;
    let t8 = parts.before_body + group;
    let t6 = parts.before_kind + (parts.kind_word + t8);
    let t4 = parts.before_as + (parts.as_word + t6);
    let t2 = parts.before_name + (parts.name + t4);
    let none = Seq::<char>::empty();
    assert(s == none + (parts.before_type + (parts.type_word + t2))) by {
        assert(none + s =~= s);
    }
    assert(t2[0] == parts.before_name[0]);
    assert(t4[0] == parts.before_as[0]);
    assert(t6[0] == parts.before_kind[0]);
    assert(t8.len() > 0 && !ident_char(t8[0])) by {
        if parts.before_body.len() > 0 {
            assert(t8[0] == parts.before_body[0]);
        } else {
            assert(t8[0] == group[0]);
        }
    }
    lemma_ident_read(s, none, parts.before_type, parts.type_word, t2);
    let h1 = none + parts.before_type + parts.type_word;
    lemma_ident_read(s, h1, parts.before_name, parts.name, t4);
    let h2 = h1 + parts.before_name + parts.name;
    lemma_ident_read(s, h2, parts.before_as, parts.as_word, t6);
    let h3 = h2 + parts.before_as;
    lemma_ident_read(s, h3, none, parts.as_word, t6);
    let h4 = h3 + none + parts.as_word;
    lemma_ident_read(s, h4, parts.before_kind, parts.kind_word, t8);
    assert(parts.as_word[0] != '(');
    lemma_no_decl_of_parts(
        s,
        parts.type_word,
        h1.len() as int,
        parts.name,
        h2.len() as int,
        h3.len() as int,
        parts.as_word,
        h4.len() as int,
        parts.kind_word,
        (h4.len() + parts.before_kind.len() + parts.kind_word.len()) as int,
    );
}

proof fn lemma_no_decl_of_parts(
    s: Seq<char>,
    type_word: Seq<char>,
    after_type: int,
    name: Seq<char>,
    after_name: int,
    after_params: int,
    as_word: Seq<char>,
    after_as: int,
    word: Seq<char>,
    after_kind: int,
)
    requires
        ident_after(s, 0) == Some((type_word, after_type)),
        ident_after(s, after_type) == Some((name, after_name)),
        params_end(s, after_name) == Some(after_params),
        ident_after(s, after_params) == Some((as_word, after_as)),
        ident_after(s, after_as) == Some((word, after_kind)),
    ensures
        !text::same_ignoring_ascii_case(type_word, "type"@) ==> decl_at(s, 0) is None,
        !text::same_ignoring_ascii_case(as_word, "as"@) ==> decl_at(s, 0) is None,
        kind_of(text::in_lower_case(word)) is None ==> decl_at(s, 0) is None,
{
}

} // verus!
