//! Helpers on strings: their characters, equality and ASCII case folding.

use vstd::prelude::*;
use vstd::std_specs::iter::IteratorSpec;
use vstd::string::{StrSliceExecFns, StringExecFns};

verus! {

broadcast use vstd::string::group_string_axioms;

/// The characters of `s`.
pub fn chars_of(s: &str) -> (v: Vec<char>)
    ensures
        v@ == s@,
{
    let mut v: Vec<char> = Vec::new();
    for c in it: s.chars()
        invariant
            v@ == it.seq().take(it.index() as int),
    {
        v.push(c);
    }
    v
}

/// Code point of the ASCII lowercase of a character, as `char::to_ascii_lowercase`.
pub open spec fn ascii_lower(c: char) -> u32 {
    if 'A' <= c && c <= 'Z' {
        ((c as u32) + 32) as u32
    } else {
        c as u32
    }
}

/// Equality of two character sequences, ignoring ASCII case (`str::eq_ignore_ascii_case`).
pub open spec fn eq_ignore_ascii_case(a: Seq<char>, b: Seq<char>) -> bool {
    &&& a.len() == b.len()
    &&& forall|i: int| 0 <= i < a.len() ==> ascii_lower(#[trigger] a[i]) == ascii_lower(b[i])
}

fn char_ascii_lower(c: char) -> (r: u32)
    ensures
        r == ascii_lower(c),
{
    if 'A' <= c && c <= 'Z' {
        (c as u32) + 32
    } else {
        c as u32
    }
}

/// `a.eq_ignore_ascii_case(b)`
pub fn str_eq_ignore_ascii_case(a: &str, b: &str) -> (r: bool)
    ensures
        r == eq_ignore_ascii_case(a@, b@),
{
    let av = chars_of(a);
    let bv = chars_of(b);
    if av.len() != bv.len() {
        return false;
    }
    let mut i: usize = 0;
    while i < av.len()
        invariant
            av@ == a@,
            bv@ == b@,
            av.len() == bv.len(),
            i <= av.len(),
            forall|k: int| 0 <= k < i ==> ascii_lower(#[trigger] av@[k]) == ascii_lower(bv@[k]),
        decreases av.len() - i,
    {
        if char_ascii_lower(av[i]) != char_ascii_lower(bv[i]) {
            return false;
        }
        i = i + 1;
    }
    true
}

/// `a == b`
pub fn str_eq(a: &str, b: &str) -> (r: bool)
    ensures
        r == (a@ == b@),
{
    let av = chars_of(a);
    let bv = chars_of(b);
    if av.len() != bv.len() {
        return false;
    }
    let mut i: usize = 0;
    while i < av.len()
        invariant
            av@ == a@,
            bv@ == b@,
            av.len() == bv.len(),
            i <= av.len(),
            forall|k: int| 0 <= k < i ==> av@[k] == bv@[k],
        decreases av.len() - i,
    {
        if av[i] != bv[i] {
            return false;
        }
        i = i + 1;
    }
    assert(av@ == bv@);
    true
}


/// Characters with the Unicode `White_Space` property, as `char::is_whitespace`.
pub open spec fn is_white_space(c: char) -> bool {
    ||| '\u{9}' <= c && c <= '\u{d}'
    ||| c == ' '
    ||| c == '\u{85}'
    ||| c == '\u{a0}'
    ||| c == '\u{1680}'
    ||| '\u{2000}' <= c && c <= '\u{200a}'
    ||| c == '\u{2028}'
    ||| c == '\u{2029}'
    ||| c == '\u{202f}'
    ||| c == '\u{205f}'
    ||| c == '\u{3000}'
}

/// `c.is_whitespace()`
pub fn char_is_white_space(c: char) -> (r: bool)
    ensures
        r == is_white_space(c),
{
    ('\u{9}' <= c && c <= '\u{d}') || c == ' ' || c == '\u{85}' || c == '\u{a0}' || c == '\u{1680}'
        || ('\u{2000}' <= c && c <= '\u{200a}') || c == '\u{2028}' || c == '\u{2029}' || c
        == '\u{202f}' || c == '\u{205f}' || c == '\u{3000}'
}

/// The words of `s`: its maximal runs of characters that are not white space, in order
/// (what `str::split_whitespace` yields).
pub open spec fn words(s: Seq<char>) -> Seq<Seq<char>>
    decreases s.len(),
{
    if s.len() == 0 {
        Seq::empty()
    } else {
        let w = words(s.drop_last());
        let c = s.last();
        if is_white_space(c) {
            w
        } else if s.len() >= 2 && !is_white_space(s[s.len() - 2]) {
            w.update(w.len() - 1, w.last().push(c))
        } else {
            w.push(seq![c])
        }
    }
}

/// The number of words never exceeds the number of characters, and a non-empty word
/// list ends with the word that the last non-space run forms.
proof fn lemma_words_len(s: Seq<char>)
    ensures
        words(s).len() <= s.len(),
        s.len() > 0 && !is_white_space(s.last()) ==> words(s).len() > 0,
    decreases s.len(),
{
    if s.len() > 0 {
        lemma_words_len(s.drop_last());
    }
}

/// `s.split_whitespace()`, collected.
pub fn split_whitespace(s: &str) -> (v: Vec<String>)
    ensures
        v@.map_values(|w: String| w@) == words(s@),
{
    let chars = chars_of(s);
    let n = chars.len();
    let mut out: Vec<String> = Vec::new();
    let mut start: usize = 0;
    let mut i: usize = 0;
    while i < n
        invariant
            chars@ == s@,
            n == chars@.len(),
            start <= i <= n,
            i > 0 && !is_white_space(s@[i - 1]) ==> (start < i && out@.map_values(
                |w: String| w@,
            ).push(s@.subrange(start as int, i as int)) == words(s@.take(i as int))
                && forall|k: int| start <= k < i ==> !is_white_space(#[trigger] s@[k])),
            !(i > 0 && !is_white_space(s@[i - 1])) ==> out@.map_values(|w: String| w@) == words(
                s@.take(i as int),
            ),
        decreases n - i,
    {
        let c = chars[i];
        let ghost prev = s@.take(i as int);
        assert(s@.take(i + 1).drop_last() =~= prev);
        if char_is_white_space(c) {
            if i > 0 && !char_is_white_space(chars[i - 1]) {
                let w = s.substring_char(start, i).to_owned();
                let ghost old_out = out@;
                out.push(w);
                assert(out@.map_values(|w: String| w@) =~= old_out.map_values(|w: String| w@).push(
                    s@.subrange(start as int, i as int),
                ));
            }
        } else {
            if i > 0 && !char_is_white_space(chars[i - 1]) {
                proof {
                    lemma_words_len(prev);
                    let m = out@.map_values(|w: String| w@);
                    assert(s@.subrange(start as int, i as int).push(c) =~= s@.subrange(
                        start as int,
                        i + 1,
                    ));
                    assert(m.push(s@.subrange(start as int, i as int)).update(
                        m.len() as int,
                        s@.subrange(start as int, i as int).push(c),
                    ) =~= m.push(s@.subrange(start as int, i + 1)));
                }
            } else {
                start = i;
                proof {
                    assert(s@.subrange(start as int, i + 1) =~= seq![c]);
                }
            }
        }
        i = i + 1;
    }
    assert(s@.take(n as int) =~= s@);
    if n > 0 && !char_is_white_space(chars[n - 1]) {
        let w = s.substring_char(start, n).to_owned();
        let ghost old_out = out@;
        out.push(w);
        assert(out@.map_values(|w: String| w@) =~= old_out.map_values(|w: String| w@).push(
            s@.subrange(start as int, n as int),
        ));
    }
    out
}


/// Characters that trimming removes: Unicode white space for `str::trim`, or only
/// space and tab (the "optional whitespace" of HTTP headers).
pub open spec fn is_trim_char(c: char, unicode: bool) -> bool {
    if unicode {
        is_white_space(c)
    } else {
        c == ' ' || c == '\t'
    }
}

pub open spec fn trim_start(t: Seq<char>, unicode: bool) -> Seq<char>
    decreases t.len(),
{
    if t.len() > 0 && is_trim_char(t[0], unicode) {
        trim_start(t.drop_first(), unicode)
    } else {
        t
    }
}

pub open spec fn trim_end(t: Seq<char>, unicode: bool) -> Seq<char>
    decreases t.len(),
{
    if t.len() > 0 && is_trim_char(t.last(), unicode) {
        trim_end(t.drop_last(), unicode)
    } else {
        t
    }
}

/// `t` without the trimmed characters at either end.
pub open spec fn trim(t: Seq<char>, unicode: bool) -> Seq<char> {
    trim_end(trim_start(t, unicode), unicode)
}

fn char_is_trim(c: char, unicode: bool) -> (r: bool)
    ensures
        r == is_trim_char(c, unicode),
{
    if unicode {
        char_is_white_space(c)
    } else {
        c == ' ' || c == '\t'
    }
}

/// `t.trim()` when `unicode`, `t.trim_matches(&[' ', '\t'][..])` otherwise.
pub fn trim_str(t: &str, unicode: bool) -> (r: &str)
    ensures
        r@ == trim(t@, unicode),
{
    let v = chars_of(t);
    let n = v.len();
    let mut a: usize = 0;
    assert(t@.subrange(0, n as int) =~= t@);
    while a < n && char_is_trim(v[a], unicode)
        invariant
            v@ == t@,
            n == v@.len(),
            a <= n,
            trim_start(t@, unicode) == trim_start(t@.subrange(a as int, n as int), unicode),
        decreases n - a,
    {
        assert(t@.subrange(a as int, n as int).drop_first() =~= t@.subrange(a + 1, n as int));
        a = a + 1;
    }
    assert(trim_start(t@.subrange(a as int, n as int), unicode) == t@.subrange(a as int, n as int));
    let mut b: usize = n;
    while b > a && char_is_trim(v[b - 1], unicode)
        invariant
            v@ == t@,
            n == v@.len(),
            a <= b <= n,
            trim(t@, unicode) == trim_end(t@.subrange(a as int, b as int), unicode),
        decreases b,
    {
        assert(t@.subrange(a as int, b as int).drop_last() =~= t@.subrange(a as int, b - 1));
        b = b - 1;
    }
    t.substring_char(a, b)
}

/// Index of the first `c` in `s` at or after `i`, or the length of `s` if there is none.
pub open spec fn find_char(s: Seq<char>, c: char, i: int) -> int
    decreases s.len() - i,
{
    if i < 0 || i >= s.len() {
        s.len() as int
    } else if s[i] == c {
        i
    } else {
        find_char(s, c, i + 1)
    }
}

pub proof fn lemma_find_char(s: Seq<char>, c: char, i: int)
    requires
        0 <= i <= s.len(),
    ensures
        i <= find_char(s, c, i) <= s.len(),
        find_char(s, c, i) < s.len() ==> s[find_char(s, c, i)] == c,
        forall|k: int| i <= k < find_char(s, c, i) ==> s[k] != c,
    decreases s.len() - i,
{
    if i < s.len() && s[i] != c {
        lemma_find_char(s, c, i + 1);
    }
}

/// The pieces of `s` from index `i` on, separated by `c` (what `str::split` yields).
pub open spec fn split_from(s: Seq<char>, c: char, i: nat) -> Seq<Seq<char>>
    decreases s.len() - i,
{
    if i > s.len() {
        Seq::empty()
    } else {
        let p = find_char(s, c, i as int);
        if p >= s.len() {
            seq![s.subrange(i as int, s.len() as int)]
        } else {
            proof {
                lemma_find_char(s, c, i as int);
            }
            seq![s.subrange(i as int, p)] + split_from(s, c, (p + 1) as nat)
        }
    }
}

/// The pieces of `s` separated by `c`; there is always at least one.
pub open spec fn split_on(s: Seq<char>, c: char) -> Seq<Seq<char>> {
    split_from(s, c, 0)
}

/// `find_char` on the characters of a string.
pub fn find_char_from(chars: &Vec<char>, c: char, i: usize) -> (p: usize)
    requires
        i <= chars@.len(),
    ensures
        p == find_char(chars@, c, i as int),
{
    let mut j = i;
    while j < chars.len() && chars[j] != c
        invariant
            i <= j <= chars@.len(),
            find_char(chars@, c, i as int) == find_char(chars@, c, j as int),
        decreases chars@.len() - j,
    {
        j = j + 1;
    }
    j
}

/// The decimal digit `d`.
pub open spec fn digit_char(d: nat) -> char {
    if d == 0 {
        '0'
    } else if d == 1 {
        '1'
    } else if d == 2 {
        '2'
    } else if d == 3 {
        '3'
    } else if d == 4 {
        '4'
    } else if d == 5 {
        '5'
    } else if d == 6 {
        '6'
    } else if d == 7 {
        '7'
    } else if d == 8 {
        '8'
    } else {
        '9'
    }
}

/// The decimal text of `n`, without leading zeros.
pub open spec fn decimal_text(n: nat) -> Seq<char>
    decreases n,
{
    if n < 10 {
        seq![digit_char(n)]
    } else {
        decimal_text(n / 10).push(digit_char(n % 10))
    }
}

fn digit_str(d: u64) -> (s: &'static str)
    requires
        d < 10,
    ensures
        s@ == seq![digit_char(d as nat)],
{
    proof {
        reveal_strlit("0");
        reveal_strlit("1");
        reveal_strlit("2");
        reveal_strlit("3");
        reveal_strlit("4");
        reveal_strlit("5");
        reveal_strlit("6");
        reveal_strlit("7");
        reveal_strlit("8");
        reveal_strlit("9");
    }
    if d == 0 {
        "0"
    } else if d == 1 {
        "1"
    } else if d == 2 {
        "2"
    } else if d == 3 {
        "3"
    } else if d == 4 {
        "4"
    } else if d == 5 {
        "5"
    } else if d == 6 {
        "6"
    } else if d == 7 {
        "7"
    } else if d == 8 {
        "8"
    } else {
        "9"
    }
}

/// The decimal text of `n` (`n.to_string()`).
pub fn decimal_string(n: u64) -> (s: String)
    ensures
        s@ == decimal_text(n as nat),
    decreases n,
{
    if n < 10 {
        digit_str(n).to_owned()
    } else {
        let mut s = decimal_string(n / 10);
        s.append(digit_str(n % 10));
        s
    }
}

/// `a` followed by `b`.
pub fn concat(a: &str, b: &str) -> (s: String)
    ensures
        s@ == a@ + b@,
{
    let mut s = a.to_owned();
    s.append(b);
    s
}

} // verus!
