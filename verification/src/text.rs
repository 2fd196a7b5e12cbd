//! Text as sequences of characters.

use vstd::prelude::*;

verus! {

/// `String::push` appends one character.
pub assume_specification[ std::string::String::push ](s: &mut std::string::String, c: char)
    ensures
        final(s)@ == old(s)@.push(c),
;

/// The characters of `s`, in order.
pub fn chars_of(s: &str) -> (chars: Vec<char>)
    ensures
        chars@ == s@,
{
    let mut chars: Vec<char> = Vec::new();
    for c in it: s.chars()
        invariant
            chars@ == it.seq().take(it.index() as int),
            it.seq() == s@,
    {
        chars.push(c);
    }
    chars
}

/// The text that `chars` spell from `from` up to `to`.
pub fn text_between(chars: &[char], from: usize, to: usize) -> (s: String)
    requires
        from <= to <= chars@.len(),
    ensures
        s@ == chars@.subrange(from as int, to as int),
{
    let mut s: String = String::new();
    let mut i: usize = from;
    while i < to
        invariant
            from <= i <= to <= chars@.len(),
            s@ == chars@.subrange(from as int, i as int),
        decreases to - i,
    {
        s.push(chars[i]);
        i = i + 1;
        assert(s@ =~= chars@.subrange(from as int, i as int));
    }
    s
}

/// Whether two texts are the same.
pub fn same_text(a: &str, b: &str) -> (same: bool)
    ensures
        same == (a@ == b@),
{
    let x: &[u8] = a.as_bytes();
    let y: &[u8] = b.as_bytes();
    proof {
        vstd::utf8::encode_utf8_decode_utf8(a@);
        vstd::utf8::encode_utf8_decode_utf8(b@);
    }
    if x.len() != y.len() {
        return false;
    }
    let mut i: usize = 0;
    while i < x.len()
        invariant
            i <= x@.len(),
            x@.len() == y@.len(),
            forall|k: int| 0 <= k < i ==> x@[k] == y@[k],
            x@ == y@ <==> a@ == b@,
        decreases x@.len() - i,
    {
        if x[i] != y[i] {
            return false;
        }
        i = i + 1;
    }
    assert(x@ =~= y@);
    true
}

/// `c` with an ASCII capital made small and everything else left alone.
pub open spec fn ascii_lower(c: char) -> char {
    if 'A' <= c <= 'Z' {
        ((c as u32) + 32) as char
    } else {
        c
    }
}

/// Whether two texts differ in the case of ASCII letters at most.
pub open spec fn same_ignoring_ascii_case(a: Seq<char>, b: Seq<char>) -> bool {
    &&& a.len() == b.len()
    &&& forall|i: int| 0 <= i < a.len() ==> ascii_lower(#[trigger] a[i]) == ascii_lower(b[i])
}

/// Whether two characters differ in the case of an ASCII letter at most.
pub fn eq_ignore_ascii_case(a: char, b: char) -> (same: bool)
    ensures
        same == (ascii_lower(a) == ascii_lower(b)),
{
    let x: u32 = a as u32;
    let y: u32 = b as u32;
    let x_low: u32 = if 0x41 <= x && x <= 0x5a {
        x + 32
    } else {
        x
    };
    let y_low: u32 = if 0x41 <= y && y <= 0x5a {
        y + 32
    } else {
        y
    };
    x_low == y_low
}

/// Whether every character is ASCII.
pub open spec fn is_ascii(s: Seq<char>) -> bool {
    forall|i: int| 0 <= i < s.len() ==> (#[trigger] s[i]) as u32 <= 0x7f
}

/// What `str::to_lowercase` makes of a text.
pub uninterp spec fn lowercase(s: Seq<char>) -> Seq<char>;

/// Calls `str::to_lowercase`, which maps by Unicode's lowercase tables. The
/// result depends on the text alone; on ASCII text it makes every capital
/// small and keeps everything else. What it is elsewhere is not said here.
#[verifier::external_body]
fn to_lowercase(s: &str) -> (low: String)
    ensures
        low@ == lowercase(s@),
        is_ascii(s@) ==> low@ == s@.map_values(|c: char| ascii_lower(c)),
{
    s.to_lowercase()
}

/// A text in lower case: ASCII text with its capitals made small, any other as
/// Unicode's tables have it.
pub open spec fn in_lower_case(s: Seq<char>) -> Seq<char> {
    if is_ascii(s) {
        s.map_values(|c: char| ascii_lower(c))
    } else {
        lowercase(s)
    }
}

/// A text in lower case.
pub fn lower_case(s: &str) -> (low: String)
    ensures
        low@ == in_lower_case(s@),
{
    to_lowercase(s)
}

/// Whether Unicode counts a character as a letter or a number, as
/// `char::is_alphanumeric` has it.
pub uninterp spec fn alphanumeric(c: char) -> bool;

/// Calls `char::is_alphanumeric`, which looks the character up in Unicode's
/// tables. The answer depends on the character alone; among ASCII characters
/// it is true of the letters and the digits. What it is of other characters
/// is not said here.
#[verifier::external_body]
fn is_alphanumeric(c: char) -> (yes: bool)
    ensures
        yes == alphanumeric(c),
        (c as u32) <= 0x7f ==> (yes <==> 'a' <= c <= 'z' || 'A' <= c <= 'Z' || '0' <= c <= '9'),
{
    c.is_alphanumeric()
}

/// Whether a character is a letter or a number: among ASCII characters those
/// that look it, any other as Unicode's tables have it.
pub open spec fn letter_or_number(c: char) -> bool {
    if (c as u32) <= 0x7f {
        'a' <= c <= 'z' || 'A' <= c <= 'Z' || '0' <= c <= '9'
    } else {
        alphanumeric(c)
    }
}

/// Whether a character is a letter or a number.
pub fn is_letter_or_number(c: char) -> (yes: bool)
    ensures
        yes == letter_or_number(c),
{
    is_alphanumeric(c)
}

/// Whether a character has Unicode's `White_Space` property.
pub open spec fn whitespace(c: char) -> bool {
    let u = c as u32;
    ||| 0x09 <= u <= 0x0d
    ||| u == 0x20
    ||| u == 0x85
    ||| u == 0xa0
    ||| u == 0x1680
    ||| 0x2000 <= u <= 0x200a
    ||| u == 0x2028
    ||| u == 0x2029
    ||| u == 0x202f
    ||| u == 0x205f
    ||| u == 0x3000
}

/// Whether a character is white space.
pub fn is_whitespace(c: char) -> (yes: bool)
    ensures
        yes == whitespace(c),
{
    let u: u32 = c as u32;
    (0x09 <= u && u <= 0x0d) || u == 0x20 || u == 0x85 || u == 0xa0 || u == 0x1680 || (0x2000 <= u
        && u <= 0x200a) || u == 0x2028 || u == 0x2029 || u == 0x202f || u == 0x205f || u == 0x3000
}

/// Whether `part` stands in `s` from position `i` on.
pub open spec fn stands_at(s: Seq<char>, part: Seq<char>, i: int) -> bool {
    0 <= i && i + part.len() <= s.len() && s.subrange(i, i + part.len()) == part
}

/// Whether `part` stands in `s` somewhere.
pub open spec fn holds(s: Seq<char>, part: Seq<char>) -> bool {
    exists|i: int| #[trigger] stands_at(s, part, i)
}

/// Whether `part` stands in `s` somewhere.
pub fn contains_text(s: &str, part: &str) -> (yes: bool)
    ensures
        yes == holds(s@, part@),
{
    let chars: Vec<char> = chars_of(s);
    let needle: Vec<char> = chars_of(part);
    let n: usize = needle.len();
    if n > chars.len() {
        assert(forall|i: int| !stands_at(s@, part@, i));
        return false;
    }
    let last: usize = chars.len() - n;
    let mut i: usize = 0;
    loop
        invariant
            i <= last,
            last + n == chars.len(),
            n == needle@.len(),
            chars@ == s@,
            needle@ == part@,
            forall|j: int| 0 <= j < i ==> !stands_at(s@, part@, j),
        decreases last - i,
    {
        let mut k: usize = 0;
        while k < n && chars[i + k] == needle[k]
            invariant
                i <= last,
                k <= n,
                last + n == chars.len(),
                n == needle@.len(),
                forall|j: int| 0 <= j < k ==> chars@[i + j] == needle@[j],
            decreases n - k,
        {
            k = k + 1;
        }
        if k == n {
            assert(s@.subrange(i as int, i + n) =~= part@);
            assert(stands_at(s@, part@, i as int));
            return true;
        }
        assert(!stands_at(s@, part@, i as int)) by {
            if stands_at(s@, part@, i as int) {
                assert(s@.subrange(i as int, i + n)[k as int] == chars@[i + k]);
            }
        }
        if i == last {
            assert forall|j: int| !stands_at(s@, part@, j) by {}
            return false;
        }
        i = i + 1;
    }
}

/// The digit of a number below ten.
pub open spec fn digit(n: nat) -> char {
    (48 + n) as char
}

/// A number in decimal.
pub open spec fn decimal(n: nat) -> Seq<char>
    decreases n,
{
    if n < 10 {
        seq![digit(n)]
    } else {
        decimal(n / 10).push(digit(n % 10))
    }
}

/// A number in decimal, with a minus sign where it is negative.
pub open spec fn signed_decimal(n: int) -> Seq<char> {
    if n < 0 {
        seq!['-'] + decimal((-n) as nat)
    } else {
        decimal(n as nat)
    }
}

/// Appends `n` in decimal.
pub fn push_decimal(out: &mut String, n: u64)
    ensures
        final(out)@ == old(out)@ + decimal(n as nat),
    decreases n,
{
    if n >= 10 {
        push_decimal(out, n / 10);
    }
    let d: u8 = (n % 10) as u8;
    out.push((48 + d) as char);
    assert(out@ =~= old(out)@ + decimal(n as nat));
}

/// Appends `n` in decimal, with a minus sign where it is negative.
pub fn push_signed_decimal(out: &mut String, n: i64)
    ensures
        final(out)@ == old(out)@ + signed_decimal(n as int),
{
    if n >= 0 {
        push_decimal(out, n as u64);
    } else {
        out.push('-');
        let magnitude: u64 = if n == i64::MIN {
            0x8000_0000_0000_0000
        } else {
            (-n) as u64
        };
        push_decimal(out, magnitude);
        assert(out@ =~= old(out)@ + signed_decimal(n as int));
    }
}

/// A number's decimal is made of digits.
pub proof fn decimals_are_digits(n: nat)
    ensures
        decimal(n).len() > 0,
        forall|i: int| 0 <= i < decimal(n).len() ==> '0' <= #[trigger] decimal(n)[i] <= '9',
    decreases n,
{
    if n >= 10 {
        decimals_are_digits(n / 10);
    }
}

/// Two numbers with one decimal are the same number.
pub proof fn decimals_are_injective(n: nat, m: nat)
    requires
        decimal(n) == decimal(m),
    ensures
        n == m,
    decreases n,
{
    decimals_are_digits(n / 10);
    decimals_are_digits(m / 10);
    assert(decimal(n).last() == decimal(m).last());
    assert(decimal(n).last() == digit(n % 10));
    assert(decimal(m).last() == digit(m % 10));
    assert(n % 10 == m % 10);
    if n >= 10 && m >= 10 {
        assert(decimal(n).drop_last() =~= decimal(n / 10));
        assert(decimal(m).drop_last() =~= decimal(m / 10));
        decimals_are_injective(n / 10, m / 10);
    }
}

/// The same with signs.
pub proof fn signed_decimals_are_injective(n: int, m: int)
    requires
        signed_decimal(n) == signed_decimal(m),
    ensures
        n == m,
{
    let a: nat = (if n < 0 {
        -n
    } else {
        n
    }) as nat;
    let b: nat = (if m < 0 {
        -m
    } else {
        m
    }) as nat;
    decimals_are_digits(a);
    decimals_are_digits(b);
    assert(signed_decimal(n)[0] == signed_decimal(m)[0]);
    assert(n >= 0 ==> signed_decimal(n)[0] == decimal(a)[0]);
    assert(m >= 0 ==> signed_decimal(m)[0] == decimal(b)[0]);
    assert((n < 0) == (m < 0));
    if n < 0 {
        assert(signed_decimal(n).skip(1) =~= decimal(a));
        assert(signed_decimal(m).skip(1) =~= decimal(b));
    }
    decimals_are_injective(a, b);
}

/// The number that digits spell, each worth ten times the one behind it.
pub open spec fn digits_value(s: Seq<char>) -> int
    decreases s.len(),
{
    if s.len() == 0 {
        0
    } else {
        10 * digits_value(s.drop_last()) + (s.last() as u32 - '0' as u32)
    }
}

/// A number's decimal spells that number, with no zero in front of it.
pub proof fn decimals_spell_their_number(n: nat)
    ensures
        digits_value(decimal(n)) == n,
        n >= 10 ==> decimal(n)[0] != '0',
        n < 10 ==> decimal(n).len() == 1,
    decreases n,
{
    reveal_with_fuel(digits_value, 2);
    if n >= 10 {
        decimals_spell_their_number(n / 10);
        decimals_are_digits(n / 10);
        assert(decimal(n).drop_last() =~= decimal(n / 10));
        assert(decimal(n)[0] == decimal(n / 10)[0]);
        if n / 10 < 10 {
            assert(decimal(n / 10) =~= seq![digit(n / 10)]);
        }
    } else {
        assert(decimal(n).drop_last() =~= Seq::empty());
    }
}

/// The same with signs: a minus sign in front of a negative number, and none
/// otherwise.
pub proof fn signed_decimals_spell_their_number(n: int)
    ensures
        n >= 0 ==> digits_value(signed_decimal(n)) == n && signed_decimal(n)[0] != '-',
        n < 0 ==> signed_decimal(n)[0] == '-' && digits_value(signed_decimal(n).skip(1)) == -n,
{
    if n >= 0 {
        decimals_spell_their_number(n as nat);
        decimals_are_digits(n as nat);
    } else {
        decimals_spell_their_number((-n) as nat);
        assert(signed_decimal(n).skip(1) =~= decimal((-n) as nat));
    }
}

/// Capitals are made small by the distance of the two alphabets, and nothing
/// else is changed; so letters are the same but for their case exactly where
/// they are so in the alphabet.
pub proof fn capitals_are_made_small(c: char)
    ensures
        'A' <= c <= 'Z' ==> ascii_lower(c) as u32 - 'a' as u32 == c as u32 - 'A' as u32,
        !('A' <= c <= 'Z') ==> ascii_lower(c) == c,
        ascii_lower(ascii_lower(c)) == ascii_lower(c),
{
}

/// White space is what Unicode counts as such, and nothing else.
pub proof fn white_space_is_unicodes(c: char)
    ensures
        whitespace(c) <==> seq![
            ' ',
            '\t',
            '\n',
            '\r',
            '\u{b}',
            '\u{c}',
            '\u{85}',
            '\u{a0}',
            '\u{1680}',
            '\u{2000}',
            '\u{2001}',
            '\u{2002}',
            '\u{2003}',
            '\u{2004}',
            '\u{2005}',
            '\u{2006}',
            '\u{2007}',
            '\u{2008}',
            '\u{2009}',
            '\u{200a}',
            '\u{2028}',
            '\u{2029}',
            '\u{202f}',
            '\u{205f}',
            '\u{3000}',
        ].contains(c),
{
    let all = seq![
        ' ',
        '\t',
        '\n',
        '\r',
        '\u{b}',
        '\u{c}',
        '\u{85}',
        '\u{a0}',
        '\u{1680}',
        '\u{2000}',
        '\u{2001}',
        '\u{2002}',
        '\u{2003}',
        '\u{2004}',
        '\u{2005}',
        '\u{2006}',
        '\u{2007}',
        '\u{2008}',
        '\u{2009}',
        '\u{200a}',
        '\u{2028}',
        '\u{2029}',
        '\u{202f}',
        '\u{205f}',
        '\u{3000}',
    ];
    if whitespace(c) {
        let u = c as u32;
        let i: int = if u == 0x20 {
            0
        } else if u == 0x09 {
            1
        } else if u == 0x0a {
            2
        } else if u == 0x0d {
            3
        } else if u == 0x0b {
            4
        } else if u == 0x0c {
            5
        } else if u == 0x85 {
            6
        } else if u == 0xa0 {
            7
        } else if u == 0x1680 {
            8
        } else if 0x2000 <= u <= 0x200a {
            9 + (u - 0x2000)
        } else if u == 0x2028 {
            20
        } else if u == 0x2029 {
            21
        } else if u == 0x202f {
            22
        } else if u == 0x205f {
            23
        } else {
            24
        };
        assert(all[i] == c);
    }
}

/// An ASCII text in lower case has the same length, and each character where
/// it was: a capital is its small letter, thirty-two behind it, and anything
/// else is itself.
pub proof fn lower_case_is_letter_by_letter(s: Seq<char>, i: int)
    requires
        0 <= i < s.len(),
    ensures
        is_ascii(s) ==> {
            &&& in_lower_case(s).len() == s.len()
            &&& 'A' <= s[i] <= 'Z' ==> in_lower_case(s)[i] as u32 == s[i] as u32 + 32
            &&& !('A' <= s[i] <= 'Z') ==> in_lower_case(s)[i] == s[i]
        },
{
}

/// A text holds another exactly where some stretch of it is that other text.
pub proof fn texts_hold_their_stretches(s: Seq<char>, part: Seq<char>, from: int, to: int)
    ensures
        0 <= from <= to <= s.len() ==> holds(s, s.subrange(from, to)),
        holds(s, part) ==> exists|a: int, b: int|
            0 <= a <= b <= s.len() && part == #[trigger] s.subrange(a, b),
{
    if 0 <= from <= to <= s.len() {
        assert(stands_at(s, s.subrange(from, to), from));
    }
    if holds(s, part) {
        let i = choose|i: int| #[trigger] stands_at(s, part, i);
        assert(part == s.subrange(i, i + part.len()));
    }
}

} // verus!
