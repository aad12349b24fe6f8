//! Text helpers for generated source code: decimal and hexadecimal numerals,
//! trimming, prefixes, indentation and ordering of texts.

use vstd::prelude::*;
use vstd::string::StrSliceExecFns;
use crate::text::push_char;

verus! {

/// The decimal digit character of `d` (meaningful for `d < 10`).
pub open spec fn digit_char(d: nat) -> char {
    if d == 0 { '0' }
    else if d == 1 { '1' }
    else if d == 2 { '2' }
    else if d == 3 { '3' }
    else if d == 4 { '4' }
    else if d == 5 { '5' }
    else if d == 6 { '6' }
    else if d == 7 { '7' }
    else if d == 8 { '8' }
    else { '9' }
}

/// The hexadecimal digit character of `d` (meaningful for `d < 16`), in upper case
/// or lower case.
pub open spec fn hex_digit_char(d: nat, upper: bool) -> char {
    if d < 10 {
        digit_char(d)
    } else if d == 10 {
        if upper { 'A' } else { 'a' }
    } else if d == 11 {
        if upper { 'B' } else { 'b' }
    } else if d == 12 {
        if upper { 'C' } else { 'c' }
    } else if d == 13 {
        if upper { 'D' } else { 'd' }
    } else if d == 14 {
        if upper { 'E' } else { 'e' }
    } else {
        if upper { 'F' } else { 'f' }
    }
}

/// Decimal numeral of `n`, without leading zeros (`"0"` for zero).
pub open spec fn dec_text(n: nat) -> Seq<char>
    decreases n,
{
    if n < 10 {
        seq![digit_char(n)]
    } else {
        dec_text(n / 10).push(digit_char(n % 10))
    }
}

/// Decimal numeral of a signed number, with a leading `-` when negative.
pub open spec fn signed_dec_text(n: int) -> Seq<char> {
    if n < 0 {
        "-"@ + dec_text((-n) as nat)
    } else {
        dec_text(n as nat)
    }
}

/// Hexadecimal numeral of `n` in upper case, without leading zeros (`"0"` for zero).
pub open spec fn hex_text(n: nat) -> Seq<char>
    decreases n,
{
    if n < 16 {
        seq![hex_digit_char(n, true)]
    } else {
        hex_text(n / 16).push(hex_digit_char(n % 16, true))
    }
}

/// Two lower-case hexadecimal digits of a byte.
pub open spec fn hex2_text(b: u8) -> Seq<char> {
    seq![hex_digit_char(b as nat / 16, false), hex_digit_char(b as nat % 16, false)]
}

fn digit(d: u64, upper: bool) -> (c: char)
    requires
        d < 16,
    ensures
        c == hex_digit_char(d as nat, upper),
{
    match d {
        0 => '0',
        1 => '1',
        2 => '2',
        3 => '3',
        4 => '4',
        5 => '5',
        6 => '6',
        7 => '7',
        8 => '8',
        9 => '9',
        10 => if upper { 'A' } else { 'a' },
        11 => if upper { 'B' } else { 'b' },
        12 => if upper { 'C' } else { 'c' },
        13 => if upper { 'D' } else { 'd' },
        14 => if upper { 'E' } else { 'e' },
        _ => if upper { 'F' } else { 'f' },
    }
}

/// Appends the decimal numeral of `n`.
pub fn push_dec(s: &mut String, n: u64)
    ensures
        final(s)@ == old(s)@ + dec_text(n as nat),
    decreases n,
{
    if n < 10 {
        push_char(s, digit(n, true));
        assert(dec_text(n as nat) =~= seq![digit_char(n as nat)]);
    } else {
        push_dec(s, n / 10);
        push_char(s, digit(n % 10, true));
        assert(old(s)@ + dec_text(n as nat) =~= old(s)@ + dec_text((n / 10) as nat) + seq![
            digit_char((n % 10) as nat),
        ]);
    }
}

/// Append the decimal numeral of a signed number, with a leading `-` when negative.
pub fn push_signed_dec(s: &mut String, n: i64)
    ensures
        final(s)@ == old(s)@ + signed_dec_text(n as int),
{
    if n < 0 {
        s.append("-");
        let m: u64 = ((0i64 - (n + 1)) as u64) + 1;
        assert(m as nat == -(n as int));
        push_dec(s, m);
    } else {
        push_dec(s, n as u64);
    }
}

/// Appends the upper-case hexadecimal numeral of `n`.
pub fn push_hex(s: &mut String, n: u64)
    ensures
        final(s)@ == old(s)@ + hex_text(n as nat),
    decreases n,
{
    if n < 16 {
        push_char(s, digit(n, true));
        assert(hex_text(n as nat) =~= seq![hex_digit_char(n as nat, true)]);
    } else {
        push_hex(s, n / 16);
        push_char(s, digit(n % 16, true));
        assert(old(s)@ + hex_text(n as nat) =~= old(s)@ + hex_text((n / 16) as nat) + seq![
            hex_digit_char((n % 16) as nat, true),
        ]);
    }
}

/// Appends two lower-case hexadecimal digits of `b`.
pub fn push_hex2(s: &mut String, b: u8)
    ensures
        final(s)@ == old(s)@ + hex2_text(b),
{
    push_char(s, digit((b / 16) as u64, false));
    push_char(s, digit((b % 16) as u64, false));
    assert(old(s)@ + hex2_text(b) =~= old(s)@.push(hex_digit_char(b as nat / 16, false)).push(
        hex_digit_char(b as nat % 16, false),
    ));
}

/// The decimal numeral of `n`.
pub fn dec(n: u64) -> (r: String)
    ensures
        r@ == dec_text(n as nat),
{
    let mut s = String::new();
    push_dec(&mut s, n);
    assert(Seq::<char>::empty() + dec_text(n as nat) =~= dec_text(n as nat));
    s
}

/// `s` followed by `t`.
pub fn cat(s: &str, t: &str) -> (r: String)
    ensures
        r@ == s@ + t@,
{
    let mut r = String::from_str(s);
    r.append(t);
    r
}

/// Whitespace as Rust's `char::is_whitespace` has it (the Unicode `White_Space` property).
pub open spec fn is_ws(c: char) -> bool {
    ||| c == '\t'
    ||| c == '\n'
    ||| c == '\u{b}'
    ||| c == '\u{c}'
    ||| c == '\r'
    ||| c == ' '
    ||| c == '\u{85}'
    ||| c == '\u{a0}'
    ||| c == '\u{1680}'
    ||| ('\u{2000}' <= c && c <= '\u{200a}')
    ||| c == '\u{2028}'
    ||| c == '\u{2029}'
    ||| c == '\u{202f}'
    ||| c == '\u{205f}'
    ||| c == '\u{3000}'
}

fn char_is_ws(c: char) -> (r: bool)
    ensures
        r == is_ws(c),
{
    c == '\t' || c == '\n' || c == '\u{b}' || c == '\u{c}' || c == '\r' || c == ' ' || c == '\u{85}'
        || c == '\u{a0}' || c == '\u{1680}' || ('\u{2000}' <= c && c <= '\u{200a}') || c
        == '\u{2028}' || c == '\u{2029}' || c == '\u{202f}' || c == '\u{205f}' || c == '\u{3000}'
}

/// `s` without its leading whitespace.
pub open spec fn trim_start(s: Seq<char>) -> Seq<char>
    decreases s.len(),
{
    if s.len() > 0 && is_ws(s[0]) {
        trim_start(s.skip(1))
    } else {
        s
    }
}

/// `s` without its trailing whitespace.
pub open spec fn trim_end(s: Seq<char>) -> Seq<char>
    decreases s.len(),
{
    if s.len() > 0 && is_ws(s.last()) {
        trim_end(s.drop_last())
    } else {
        s
    }
}

/// `s` without leading and trailing whitespace (what `str::trim` gives).
pub open spec fn trimmed(s: Seq<char>) -> Seq<char> {
    trim_end(trim_start(s))
}

proof fn lemma_trim_start(s: Seq<char>, i: int)
    requires
        0 <= i <= s.len(),
        forall|k: int| 0 <= k < i ==> is_ws(#[trigger] s[k]),
        i == s.len() || !is_ws(s[i]),
    ensures
        trim_start(s) == s.skip(i),
    decreases i,
{
    if i == 0 {
        assert(s.skip(0) =~= s);
    } else {
        assert forall|k: int| 0 <= k < i - 1 implies is_ws(#[trigger] s.skip(1)[k]) by {
            assert(s.skip(1)[k] == s[k + 1]);
        }
        if i - 1 < s.skip(1).len() {
            assert(s.skip(1)[i - 1] == s[i]);
        }
        lemma_trim_start(s.skip(1), i - 1);
        assert(s.skip(1).skip(i - 1) =~= s.skip(i));
    }
}

proof fn lemma_trim_end(s: Seq<char>, j: int)
    requires
        0 <= j <= s.len(),
        forall|k: int| j <= k < s.len() ==> is_ws(#[trigger] s[k]),
        j == 0 || !is_ws(s[j - 1]),
    ensures
        trim_end(s) == s.take(j),
    decreases s.len() - j,
{
    if j == s.len() {
        assert(s.take(j) =~= s);
    } else {
        assert forall|k: int| j <= k < s.drop_last().len() implies is_ws(
            #[trigger] s.drop_last()[k],
        ) by {
            assert(s.drop_last()[k] == s[k]);
        }
        if j > 0 {
            assert(s.drop_last()[j - 1] == s[j - 1]);
        }
        lemma_trim_end(s.drop_last(), j);
        assert(s.drop_last().take(j) =~= s.take(j));
    }
}

/// `s` without leading and trailing whitespace.
pub fn trim(s: &str) -> (r: String)
    ensures
        r@ == trimmed(s@),
{
    let n = s.unicode_len();
    let mut i: usize = 0;
    while i < n && char_is_ws(s.get_char(i))
        invariant
            n == s@.len(),
            0 <= i <= n,
            forall|k: int| 0 <= k < i ==> is_ws(#[trigger] s@[k]),
        decreases n - i,
    {
        i = i + 1;
    }
    proof {
        lemma_trim_start(s@, i as int);
    }
    let mut j: usize = n;
    while j > i && char_is_ws(s.get_char(j - 1))
        invariant
            n == s@.len(),
            0 <= i <= j <= n,
            forall|k: int| j <= k < n ==> is_ws(#[trigger] s@[k]),
        decreases j,
    {
        j = j - 1;
    }
    proof {
        let t = s@.skip(i as int);
        assert forall|k: int| j - i <= k < t.len() implies is_ws(#[trigger] t[k]) by {
            assert(t[k] == s@[k + i]);
        }
        if j > i {
            assert(t[j - i - 1] == s@[j - 1]);
        }
        lemma_trim_end(t, j - i);
        assert(t.take(j - i) =~= s@.subrange(i as int, j as int));
    }
    String::from_str(s.substring_char(i, j))
}

/// `s` with the prefix `p` taken off, when `s` starts with `p`.
pub fn strip_prefix(s: &str, p: &str) -> (r: Option<String>)
    ensures
        match r {
            Some(t) => p@.len() <= s@.len() && s@.take(p@.len() as int) == p@ && t@ == s@.skip(
                p@.len() as int,
            ),
            None => !(p@.len() <= s@.len() && s@.take(p@.len() as int) == p@),
        },
{
    let n = s.unicode_len();
    let m = p.unicode_len();
    if m > n {
        return None;
    }
    let mut i: usize = 0;
    while i < m
        invariant
            n == s@.len(),
            m == p@.len(),
            m <= n,
            0 <= i <= m,
            forall|k: int| 0 <= k < i ==> s@[k] == p@[k],
        decreases m - i,
    {
        if s.get_char(i) != p.get_char(i) {
            proof {
                assert(s@.take(m as int)[i as int] != p@[i as int]);
            }
            return None;
        }
        i = i + 1;
    }
    proof {
        assert(s@.take(m as int) =~= p@);
    }
    Some(String::from_str(s.substring_char(m, n)))
}

/// `n` spaces.
pub open spec fn spaces(n: nat) -> Seq<char> {
    Seq::new(n, |i: int| ' ')
}

/// The text of `n` spaces.
pub fn space_text(n: usize) -> (r: String)
    ensures
        r@ == spaces(n as nat),
{
    let mut s = String::new();
    let mut i: usize = 0;
    while i < n
        invariant
            0 <= i <= n,
            s@ == spaces(i as nat),
        decreases n - i,
    {
        push_char(&mut s, ' ');
        i = i + 1;
        assert(s@ =~= spaces(i as nat));
    }
    s
}

/// Index of the first line break of `s`, or its length when it has none.
pub open spec fn line_end(s: Seq<char>) -> int
    decreases s.len(),
{
    if s.len() == 0 || s[0] == '\n' {
        0
    } else {
        1 + line_end(s.skip(1))
    }
}

/// The first line break of `s`, if any, lies within `s`.
pub proof fn lemma_line_end(s: Seq<char>)
    ensures
        0 <= line_end(s) <= s.len(),
        line_end(s) < s.len() ==> s[line_end(s)] == '\n',
        forall|i: int| 0 <= i < line_end(s) ==> s[i] != '\n',
    decreases s.len(),
{
    if s.len() > 0 && s[0] != '\n' {
        lemma_line_end(s.skip(1));
        assert forall|i: int| 0 <= i < line_end(s) implies s[i] != '\n' by {
            if i > 0 {
                assert(s[i] == s.skip(1)[i - 1]);
            }
        }
    }
}

/// The lines of `s`, as `str::split_terminator('\n')` gives them: the text between
/// line breaks, with no empty line after a final line break.
pub open spec fn text_lines(s: Seq<char>) -> Seq<Seq<char>>
    decreases s.len(),
{
    if s.len() == 0 {
        Seq::empty()
    } else {
        proof {
            lemma_line_end(s);
        }
        if line_end(s) < s.len() {
            seq![s.take(line_end(s))] + text_lines(s.skip(line_end(s) + 1))
        } else {
            seq![s]
        }
    }
}

/// A line with its prefix: a line of whitespace only gets the prefix without its
/// trailing whitespace, any other line the whole prefix.
pub open spec fn prefixed_line(line: Seq<char>, prefix: Seq<char>) -> Seq<char> {
    if forall|i: int| 0 <= i < line.len() ==> is_ws(#[trigger] line[i]) {
        trim_end(prefix) + line
    } else {
        prefix + line
    }
}

/// The lines, each with its prefix, separated by line breaks.
pub open spec fn prefixed_lines(lines: Seq<Seq<char>>, prefix: Seq<char>) -> Seq<char>
    decreases lines.len(),
{
    if lines.len() == 0 {
        Seq::empty()
    } else if lines.len() == 1 {
        prefixed_line(lines[0], prefix)
    } else {
        prefixed_lines(lines.drop_last(), prefix) + seq!['\n'] + prefixed_line(lines.last(), prefix)
    }
}

/// What `textwrap::indent` makes of `s` with the line prefix `prefix`: each line
/// with its prefix, separated by line breaks, and a final line break when `s` ends
/// with one.
#[verifier::opaque]
pub open spec fn indented(s: Seq<char>, prefix: Seq<char>) -> Seq<char> {
    prefixed_lines(text_lines(s), prefix) + if s.len() > 0 && s.last() == '\n' {
        seq!['\n']
    } else {
        Seq::empty()
    }
}

/// `textwrap::indent`: every line of `s` gets the prefix `prefix` (lines holding only
/// whitespace get the prefix without its trailing whitespace); see [`indented`].
#[verifier::external_body]
fn textwrap_indent(s: &str, prefix: &str) -> (r: String)
    ensures
        r@ == indented(s@, prefix@),
{
    textwrap::indent(s, prefix)
}

/// `s` with every line indented by `n` spaces.
pub fn indent(s: &str, n: usize) -> (r: String)
    ensures
        r@ == indented(s@, spaces(n as nat)),
{
    let prefix = space_text(n);
    textwrap_indent(s, prefix.as_str())
}

/// What `str::to_uppercase` makes of `s`.
pub uninterp spec fn uppercased(s: Seq<char>) -> Seq<char>;

/// `str::to_uppercase`: the upper-case mapping of `s` by the Unicode tables, a
/// function of `s` alone; what that function is, is not stated here.
#[verifier::external_body]
pub(crate) fn to_uppercase(s: &str) -> (r: String)
    ensures
        r@ == uppercased(s@),
{
    s.to_uppercase()
}

/// `a` comes strictly before `b` in the order of `str`'s `<` (code point by code
/// point, a proper prefix first).
pub open spec fn text_lt(a: Seq<char>, b: Seq<char>) -> bool
    decreases a.len(),
{
    if b.len() == 0 {
        false
    } else if a.len() == 0 {
        true
    } else if a[0] != b[0] {
        a[0] < b[0]
    } else {
        text_lt(a.skip(1), b.skip(1))
    }
}

/// Whether `a < b` as texts.
pub fn str_lt(a: &str, b: &str) -> (r: bool)
    ensures
        r == text_lt(a@, b@),
{
    let n = a.unicode_len();
    let m = b.unicode_len();
    let mut i: usize = 0;
    proof {
        assert(a@.skip(0) =~= a@);
        assert(b@.skip(0) =~= b@);
    }
    while i < n && i < m && a.get_char(i) == b.get_char(i)
        invariant
            n == a@.len(),
            m == b@.len(),
            0 <= i <= n,
            i <= m,
            forall|k: int| 0 <= k < i ==> a@[k] == b@[k],
            text_lt(a@, b@) == text_lt(a@.skip(i as int), b@.skip(i as int)),
        decreases n - i,
    {
        proof {
            assert(a@.skip(i as int)[0] == a@[i as int]);
            assert(b@.skip(i as int)[0] == b@[i as int]);
            assert(a@.skip(i as int).skip(1) =~= a@.skip(i + 1));
            assert(b@.skip(i as int).skip(1) =~= b@.skip(i + 1));
        }
        i = i + 1;
    }
    if i == m {
        false
    } else if i == n {
        true
    } else {
        let x = a.get_char(i);
        let y = b.get_char(i);
        proof {
            assert(a@.skip(i as int)[0] == x);
            assert(b@.skip(i as int)[0] == y);
        }
        x < y
    }
}

/// No text comes before itself.
pub proof fn lemma_text_lt_irreflexive(a: Seq<char>)
    ensures
        !text_lt(a, a),
    decreases a.len(),
{
    if a.len() > 0 {
        lemma_text_lt_irreflexive(a.skip(1));
    }
}

/// Of two different texts, one comes before the other, and not both ways.
pub proof fn lemma_text_lt_total(a: Seq<char>, b: Seq<char>)
    ensures
        a != b ==> (text_lt(a, b) || text_lt(b, a)),
        !(text_lt(a, b) && text_lt(b, a)),
    decreases a.len(),
{
    if a.len() > 0 && b.len() > 0 && a[0] == b[0] {
        lemma_text_lt_total(a.skip(1), b.skip(1));
        if a.skip(1) == b.skip(1) {
            assert(a =~= seq![a[0]] + a.skip(1));
            assert(b =~= seq![b[0]] + b.skip(1));
        }
    } else if a.len() == 0 && b.len() == 0 {
        assert(a =~= b);
    }
}

/// The order of texts is transitive.
pub proof fn lemma_text_lt_trans(a: Seq<char>, b: Seq<char>, c: Seq<char>)
    requires
        text_lt(a, b),
        text_lt(b, c),
    ensures
        text_lt(a, c),
    decreases a.len(),
{
    if a.len() > 0 && a[0] == b[0] && b[0] == c[0] {
        lemma_text_lt_trans(a.skip(1), b.skip(1), c.skip(1));
    }
}

/// `a` comes before `b` or equals it.
pub open spec fn text_le(a: Seq<char>, b: Seq<char>) -> bool {
    a == b || text_lt(a, b)
}

/// The texts of pairs of `String`s.
pub open spec fn text_pairs(s: Seq<(String, String)>) -> Seq<(Seq<char>, Seq<char>)> {
    s.map_values(|p: (String, String)| (p.0@, p.1@))
}

/// `s` with `x` put before the first pair whose first part comes after `x`'s.
pub open spec fn insert_by_key(s: Seq<(Seq<char>, Seq<char>)>, x: (Seq<char>, Seq<char>)) -> Seq<
    (Seq<char>, Seq<char>),
>
    decreases s.len(),
{
    if s.len() == 0 {
        seq![x]
    } else if text_lt(x.0, s[0].0) {
        seq![x] + s
    } else {
        seq![s[0]] + insert_by_key(s.skip(1), x)
    }
}

/// The pairs of `t` ordered by their first parts, equal ones in their order in `t`
/// (insertion of each pair in turn).
pub open spec fn sort_by_key(t: Seq<(Seq<char>, Seq<char>)>) -> Seq<(Seq<char>, Seq<char>)>
    decreases t.len(),
{
    if t.len() == 0 {
        Seq::empty()
    } else {
        insert_by_key(sort_by_key(t.drop_last()), t.last())
    }
}

proof fn lemma_insert_by_key(s: Seq<(Seq<char>, Seq<char>)>, x: (Seq<char>, Seq<char>), p: int)
    requires
        0 <= p <= s.len(),
        forall|k: int| 0 <= k < p ==> !text_lt(x.0, (#[trigger] s[k]).0),
        p == s.len() || text_lt(x.0, s[p].0),
    ensures
        insert_by_key(s, x) == s.take(p) + seq![x] + s.skip(p),
    decreases s.len(),
{
    if s.len() == 0 {
        assert(s.take(p) + seq![x] + s.skip(p) =~= seq![x]);
    } else if p == 0 {
        assert(s.take(0) + seq![x] + s.skip(0) =~= seq![x] + s);
    } else {
        assert forall|k: int| 0 <= k < p - 1 implies !text_lt(x.0, (#[trigger] s.skip(1)[k]).0) by {
            assert(s.skip(1)[k] == s[k + 1]);
        }
        if p < s.len() {
            assert(s.skip(1)[p - 1] == s[p]);
        }
        lemma_insert_by_key(s.skip(1), x, p - 1);
        assert(seq![s[0]] + (s.skip(1).take(p - 1) + seq![x] + s.skip(1).skip(p - 1)) =~= s.take(p)
            + seq![x] + s.skip(p));
    }
}

/// Sort pairs by the text of their first part, keeping the order of equal ones.
pub fn sort_by_text(v: Vec<(String, String)>) -> (r: Vec<(String, String)>)
    ensures
        text_pairs(r@) == sort_by_key(text_pairs(v@)),
{
    let ghost orig = text_pairs(v@);
    let mut out: Vec<(String, String)> = Vec::new();
    let mut rest = v;
    let mut i: usize = 0;
    let total = rest.len();
    while rest.len() > 0
        invariant
            0 <= i <= orig.len(),
            total == orig.len(),
            i + rest@.len() == orig.len(),
            text_pairs(rest@) == orig.skip(i as int),
            text_pairs(out@) == sort_by_key(orig.take(i as int)),
        decreases rest@.len(),
    {
        let ghost rest0 = rest@;
        let ghost out0 = text_pairs(out@);
        let item = rest.remove(0);
        proof {
            assert(rest@ =~= rest0.skip(1));
            assert(text_pairs(rest0)[0] == orig.skip(i as int)[0]);
            assert forall|k: int| 0 <= k < rest@.len() implies text_pairs(rest@)[k] == orig.skip(i + 1)[k] by {
                assert(text_pairs(rest0)[k + 1] == orig.skip(i as int)[k + 1]);
                assert(rest@[k] == rest0[k + 1]);
            }
            assert(text_pairs(rest@) =~= orig.skip(i + 1));
        }
        let mut pos: usize = 0;
        while pos < out.len() && !str_lt(item.0.as_str(), out[pos].0.as_str())
            invariant
                text_pairs(out@) == out0,
                0 <= pos <= out@.len(),
                forall|k: int| 0 <= k < pos ==> !text_lt(item.0@, (#[trigger] out0[k]).0),
            decreases out@.len() - pos,
        {
            proof {
                assert(out0[pos as int] == (out@[pos as int].0@, out@[pos as int].1@));
            }
            pos = pos + 1;
        }
        proof {
            if pos < out0.len() {
                assert(out0[pos as int] == (out@[pos as int].0@, out@[pos as int].1@));
            }
            lemma_insert_by_key(out0, (item.0@, item.1@), pos as int);
            assert(orig.take(i + 1).drop_last() =~= orig.take(i as int));
            assert(orig.take(i + 1).last() == orig[i as int]);
            assert(orig[i as int] == (item.0@, item.1@));
        }
        let ghost ob = out@;
        out.insert(pos, item);
        proof {
            assert(out@ =~= ob.take(pos as int) + seq![item] + ob.skip(pos as int));
            assert(text_pairs(out@) =~= out0.take(pos as int) + seq![(item.0@, item.1@)] + out0.skip(pos as int));
        }
        i = i + 1;
    }
    proof {
        assert(orig.take(i as int) =~= orig);
    }
    out
}

/// Insertion keeps the pairs ordered by first part and adds exactly the new pair.
pub proof fn lemma_insert_sorted(s: Seq<(Seq<char>, Seq<char>)>, x: (Seq<char>, Seq<char>))
    requires
        forall|i: int, j: int| 0 <= i < j < s.len() ==> text_le((#[trigger] s[i]).0, (#[trigger] s[j]).0),
    ensures
        forall|i: int, j: int|
            0 <= i < j < insert_by_key(s, x).len() ==> text_le(
                (#[trigger] insert_by_key(s, x)[i]).0,
                (#[trigger] insert_by_key(s, x)[j]).0,
            ),
        insert_by_key(s, x).len() == s.len() + 1,
        forall|y: (Seq<char>, Seq<char>)| #[trigger] insert_by_key(s, x).contains(y) == (s.contains(y) || y == x),
    decreases s.len(),
{
    let r = insert_by_key(s, x);
    if s.len() == 0 {
        assert(r =~= seq![x]);
        assert forall|y: (Seq<char>, Seq<char>)| r.contains(y) == (s.contains(y) || y == x) by {
            if r.contains(y) {
                let k = choose|k: int| 0 <= k < r.len() && r[k] == y;
            }
            if y == x {
                assert(r[0] == x);
            }
        }
    } else if text_lt(x.0, s[0].0) {
        assert(r =~= seq![x] + s);
        assert forall|i: int, j: int| 0 <= i < j < r.len() implies text_le((#[trigger] r[i]).0, (#[trigger] r[j]).0) by {
            if i == 0 {
                assert(r[j] == s[j - 1]);
                if j - 1 > 0 {
                    assert(text_le(s[0].0, s[j - 1].0));
                    if s[0].0 != s[j - 1].0 {
                        lemma_text_lt_trans(x.0, s[0].0, s[j - 1].0);
                    }
                }
            } else {
                assert(r[i] == s[i - 1] && r[j] == s[j - 1]);
            }
        }
        assert forall|y: (Seq<char>, Seq<char>)| r.contains(y) == (s.contains(y) || y == x) by {
            if r.contains(y) {
                let k = choose|k: int| 0 <= k < r.len() && r[k] == y;
                if k > 0 {
                    assert(s[k - 1] == y);
                }
            }
            if s.contains(y) {
                let k = choose|k: int| 0 <= k < s.len() && s[k] == y;
                assert(r[k + 1] == y);
            }
            if y == x {
                assert(r[0] == x);
            }
        }
    } else {
        let t = s.skip(1);
        assert forall|i: int, j: int| 0 <= i < j < t.len() implies text_le((#[trigger] t[i]).0, (#[trigger] t[j]).0) by {
            assert(t[i] == s[i + 1] && t[j] == s[j + 1]);
        }
        lemma_insert_sorted(t, x);
        let rt = insert_by_key(t, x);
        assert(rt.contains(x));
        assert(r =~= seq![s[0]] + rt);
        lemma_text_lt_total(x.0, s[0].0);
        assert forall|i: int, j: int| 0 <= i < j < r.len() implies text_le((#[trigger] r[i]).0, (#[trigger] r[j]).0) by {
            if i == 0 {
                assert(r[j] == rt[j - 1]);
                assert(rt.contains(rt[j - 1]));
                if rt[j - 1] != x {
                    assert(t.contains(rt[j - 1]));
                    let k = choose|k: int| 0 <= k < t.len() && t[k] == rt[j - 1];
                    assert(t[k] == s[k + 1]);
                    assert(text_le(s[0].0, s[k + 1].0));
                } else {
                    assert(text_le(s[0].0, x.0));
                }
            } else {
                assert(r[i] == rt[i - 1] && r[j] == rt[j - 1]);
            }
        }
        assert forall|y: (Seq<char>, Seq<char>)| r.contains(y) == (s.contains(y) || y == x) by {
            if r.contains(y) {
                let k = choose|k: int| 0 <= k < r.len() && r[k] == y;
                if k == 0 {
                    assert(s[0] == y);
                } else {
                    assert(rt[k - 1] == y);
                    assert(rt.contains(y));
                    if t.contains(y) {
                        let m = choose|m: int| 0 <= m < t.len() && t[m] == y;
                        assert(s[m + 1] == y);
                    }
                }
            }
            if s.contains(y) {
                let k = choose|k: int| 0 <= k < s.len() && s[k] == y;
                if k == 0 {
                    assert(r[0] == y);
                } else {
                    assert(t[k - 1] == y);
                    assert(t.contains(y));
                    assert(rt.contains(y));
                    let m = choose|m: int| 0 <= m < rt.len() && rt[m] == y;
                    assert(r[m + 1] == y);
                }
            }
            if y == x {
                assert(rt.contains(x));
                let m = choose|m: int| 0 <= m < rt.len() && rt[m] == x;
                assert(r[m + 1] == x);
            }
        }
    }
}

/// Sorting by key orders the pairs by first part, keeps their number, and holds
/// exactly the pairs it was given.
pub proof fn law_sort_by_key(t: Seq<(Seq<char>, Seq<char>)>)
    ensures
        forall|i: int, j: int|
            0 <= i < j < sort_by_key(t).len() ==> text_le(
                (#[trigger] sort_by_key(t)[i]).0,
                (#[trigger] sort_by_key(t)[j]).0,
            ),
        sort_by_key(t).len() == t.len(),
        forall|y: (Seq<char>, Seq<char>)| #[trigger] sort_by_key(t).contains(y) == t.contains(y),
    decreases t.len(),
{
    if t.len() > 0 {
        law_sort_by_key(t.drop_last());
        lemma_insert_sorted(sort_by_key(t.drop_last()), t.last());
        assert forall|y: (Seq<char>, Seq<char>)| sort_by_key(t).contains(y) == t.contains(y) by {
            if t.contains(y) {
                let k = choose|k: int| 0 <= k < t.len() && t[k] == y;
                if k < t.len() - 1 {
                    assert(t.drop_last()[k] == y);
                }
            }
            if t.drop_last().contains(y) {
                let k = choose|k: int| 0 <= k < t.drop_last().len() && t.drop_last()[k] == y;
                assert(t[k] == y);
            }
        }
    }
}

/// Hexadecimal numeral of `n` in lower case, without leading zeros (`"0"` for zero).
pub open spec fn hex_lower_text(n: nat) -> Seq<char>
    decreases n,
{
    if n < 16 {
        seq![hex_digit_char(n, false)]
    } else {
        hex_lower_text(n / 16).push(hex_digit_char(n % 16, false))
    }
}

/// Appends the lower-case hexadecimal numeral of `n`.
pub fn push_hex_lower(s: &mut String, n: u64)
    ensures
        final(s)@ == old(s)@ + hex_lower_text(n as nat),
    decreases n,
{
    if n < 16 {
        push_char(s, digit(n, false));
        assert(hex_lower_text(n as nat) =~= seq![hex_digit_char(n as nat, false)]);
    } else {
        push_hex_lower(s, n / 16);
        push_char(s, digit(n % 16, false));
        assert(old(s)@ + hex_lower_text(n as nat) =~= old(s)@ + hex_lower_text((n / 16) as nat) + seq![
            hex_digit_char((n % 16) as nat, false),
        ]);
    }
}

/// What `{:?}` makes of a string: the text in double quotes, with quotes,
/// backslashes and unprintable characters escaped.
pub uninterp spec fn debug_text(s: Seq<char>) -> Seq<char>;

/// `format!("{:?}", s)`: the `Debug` text of a string. Its result is a function of
/// `s` alone; which escapes it uses is not stated here.
#[verifier::external_body]
pub(crate) fn debug_str(s: &str) -> (r: String)
    ensures
        r@ == debug_text(s@),
{
    format!("{:?}", s)
}

} // verus!
