//! Character-level building blocks shared by the text functions: Unicode
//! white space, trimming, ASCII case folding, prefixes, replacement,
//! word splitting and decimal formatting.
use vstd::prelude::*;

verus! {

broadcast use vstd::string::group_string_axioms;

/// `char::is_whitespace`: the characters with the Unicode `White_Space` property.
pub open spec fn is_space(c: char) -> bool {
    let u = c as u32;
    ||| 0x9 <= u <= 0xd
    ||| u == 0x20
    ||| u == 0x85
    ||| u == 0xa0
    ||| u == 0x1680
    ||| 0x2000 <= u <= 0x200a
    ||| u == 0x2028
    ||| u == 0x2029
    ||| u == 0x202f
    ||| u == 0x205f
    ||| u == 0x3000
}

/// Executable form of [`is_space`].
pub fn is_space_char(c: char) -> (b: bool)
    ensures
        b == is_space(c),
{
    let u = c as u32;
    (0x9 <= u && u <= 0xd) || u == 0x20 || u == 0x85 || u == 0xa0 || u == 0x1680 || (0x2000 <= u
        && u <= 0x200a) || u == 0x2028 || u == 0x2029 || u == 0x202f || u == 0x205f || u == 0x3000
}

/// `s` with its leading white space removed.
pub open spec fn trim_start(s: Seq<char>) -> Seq<char>
    decreases s.len(),
{
    if s.len() > 0 && is_space(s[0]) {
        trim_start(s.drop_first())
    } else {
        s
    }
}

/// `s` with its trailing white space removed.
pub open spec fn trim_end(s: Seq<char>) -> Seq<char>
    decreases s.len(),
{
    if s.len() > 0 && is_space(s.last()) {
        trim_end(s.drop_last())
    } else {
        s
    }
}

/// `str::trim`: leading and trailing white space removed.
pub open spec fn trim(s: Seq<char>) -> Seq<char> {
    trim_end(trim_start(s))
}

/// Whether every character of `s` is white space.
pub open spec fn all_space(s: Seq<char>) -> bool {
    forall|i: int| 0 <= i < s.len() ==> is_space(#[trigger] s[i])
}

proof fn lemma_trim_start_skip(s: Seq<char>, i: int)
    requires
        0 <= i <= s.len(),
        all_space(s.take(i)),
        i == s.len() || !is_space(s[i]),
    ensures
        trim_start(s) == s.skip(i),
    decreases i,
{
    if i == 0 {
        assert(s.skip(0) =~= s);
    } else {
        assert(is_space(s.take(i)[0]));
        let t = s.drop_first();
        assert forall|k: int| 0 <= k < i - 1 implies is_space(#[trigger] t.take(i - 1)[k]) by {
            assert(t.take(i - 1)[k] == s.take(i)[k + 1]);
        }
        lemma_trim_start_skip(t, i - 1);
        assert(t.skip(i - 1) =~= s.skip(i));
    }
}

proof fn lemma_trim_end_take(s: Seq<char>, j: int)
    requires
        0 <= j <= s.len(),
        all_space(s.skip(j)),
        j == 0 || !is_space(s[j - 1]),
    ensures
        trim_end(s) == s.take(j),
    decreases s.len() - j,
{
    if j == s.len() {
        assert(s.take(j) =~= s);
    } else {
        assert(is_space(s.skip(j)[s.len() - j - 1]));
        let t = s.drop_last();
        assert forall|k: int| 0 <= k < t.len() - j implies is_space(#[trigger] t.skip(j)[k]) by {
            assert(t.skip(j)[k] == s.skip(j)[k]);
        }
        lemma_trim_end_take(t, j);
        assert(t.take(j) =~= s.take(j));
    }
}

/// The characters of a string slice, in order.
pub fn chars_of(s: &str) -> (v: Vec<char>)
    ensures
        v@ == s@,
{
    let mut v: Vec<char> = Vec::new();
    for c in it: s.chars()
        invariant
            it.seq() == s@,
            v@ == it.seq().take(it.index() as int),
    {
        v.push(c);
        assert(v@ =~= it.seq().take(it.index() + 1));
    }
    assert(v@ =~= s@);
    v
}

/// `String::push`. Claimed: the string afterwards is the old one with the
/// character appended (its documentation: "Appends the given char to the end
/// of this String").
#[verifier::external_body]
fn push_char(s: &mut String, c: char)
    ensures
        final(s)@ == old(s)@.push(c),
{
    s.push(c);
}

/// A `String` holding the characters of `v`.
pub fn string_of(v: &[char]) -> (s: String)
    ensures
        s@ == v@,
{
    let mut s = String::new();
    let mut i: usize = 0;
    while i < v.len()
        invariant
            0 <= i <= v.len(),
            s@ == v@.take(i as int),
        decreases v.len() - i,
    {
        push_char(&mut s, v[i]);
        i = i + 1;
        assert(s@ =~= v@.take(i as int));
    }
    assert(v@.take(v.len() as int) =~= v@);
    s
}

/// Appends the characters of `src` to `dst`.
pub fn extend_chars(dst: &mut Vec<char>, src: &[char])
    ensures
        final(dst)@ == old(dst)@ + src@,
{
    let mut i: usize = 0;
    while i < src.len()
        invariant
            0 <= i <= src.len(),
            dst@ == old(dst)@ + src@.take(i as int),
        decreases src.len() - i,
    {
        dst.push(src[i]);
        i = i + 1;
        assert(dst@ =~= old(dst)@ + src@.take(i as int));
    }
    assert(src@.take(src.len() as int) =~= src@);
}

/// `str::trim` on a character sequence.
pub fn trim_chars(s: &[char]) -> (t: Vec<char>)
    ensures
        t@ == trim(s@),
{
    let mut i: usize = 0;
    while i < s.len() && is_space_char(s[i])
        invariant
            0 <= i <= s.len(),
            all_space(s@.take(i as int)),
        decreases s.len() - i,
    {
        i = i + 1;
        assert forall|k: int| 0 <= k < i implies is_space(#[trigger] s@.take(i as int)[k]) by {
            if k < i - 1 {
                assert(s@.take(i as int)[k] == s@.take(i - 1)[k]);
            }
        }
    }
    proof {
        lemma_trim_start_skip(s@, i as int);
    }
    let mut j: usize = s.len();
    while j > i && is_space_char(s[j - 1])
        invariant
            i <= j <= s.len(),
            all_space(s@.skip(j as int)),
        decreases j,
    {
        j = j - 1;
        assert forall|k: int| 0 <= k < s.len() - j implies is_space(#[trigger] s@.skip(j as int)[k]) by {
            if k > 0 {
                assert(s@.skip(j as int)[k] == s@.skip(j + 1)[k - 1]);
            }
        }
    }
    let ghost ts = s@.skip(i as int);
    proof {
        assert forall|k: int| 0 <= k < ts.len() - (j - i) implies is_space(#[trigger] ts.skip(j - i)[k]) by {
            assert(ts.skip(j - i)[k] == s@.skip(j as int)[k]);
        }
        lemma_trim_end_take(ts, j - i);
    }
    let mut t: Vec<char> = Vec::new();
    let mut k: usize = i;
    while k < j
        invariant
            i <= k <= j <= s.len(),
            t@ == s@.subrange(i as int, k as int),
        decreases j - k,
    {
        t.push(s[k]);
        k = k + 1;
        assert(t@ =~= s@.subrange(i as int, k as int));
    }
    assert(ts.take(j - i) =~= s@.subrange(i as int, j as int));
    t
}

/// `char::to_ascii_lowercase`.
pub open spec fn ascii_lower(c: char) -> char {
    if 'A' <= c <= 'Z' {
        ((c as u32) + 32) as char
    } else {
        c
    }
}

/// Every character of `s` is ASCII.
pub open spec fn all_ascii(s: Seq<char>) -> bool {
    forall|i: int| 0 <= i < s.len() ==> (#[trigger] s[i] as u32) < 0x80
}

/// `str::to_ascii_lowercase` on a character sequence.
pub open spec fn ascii_lower_seq(s: Seq<char>) -> Seq<char> {
    s.map_values(|c: char| ascii_lower(c))
}

/// `char::to_ascii_uppercase`.
pub open spec fn ascii_upper(c: char) -> char {
    if 'a' <= c <= 'z' {
        ((c as u32) - 32) as char
    } else {
        c
    }
}

/// `str::to_ascii_uppercase` on a character sequence.
pub open spec fn ascii_upper_seq(s: Seq<char>) -> Seq<char> {
    s.map_values(|c: char| ascii_upper(c))
}

proof fn lemma_ascii_case_char(c: char)
    ensures
        ascii_lower(ascii_lower(c)) == ascii_lower(c),
        ascii_lower(ascii_upper(c)) == ascii_lower(c),
        (c as u32) < 0x80 ==> (ascii_lower(c) as u32) < 0x80 && (ascii_upper(c) as u32) < 0x80,
{
    let u = c as u32;
    if 'A' <= c <= 'Z' {
        assert(0x41 <= u <= 0x5a);
        assert((((u + 32) as char) as u32) == u + 32);
    }
    if 'a' <= c <= 'z' {
        assert(0x61 <= u <= 0x7a);
        assert((((u - 32) as char) as u32) == u - 32);
    }
}

/// Lower-casing ASCII letters twice is doing it once, and lower-casing after
/// upper-casing is lower-casing; both keep ASCII text ASCII.
pub proof fn lemma_ascii_case(s: Seq<char>)
    ensures
        ascii_lower_seq(ascii_lower_seq(s)) == ascii_lower_seq(s),
        ascii_lower_seq(ascii_upper_seq(s)) == ascii_lower_seq(s),
        all_ascii(s) ==> all_ascii(ascii_lower_seq(s)) && all_ascii(ascii_upper_seq(s)),
{
    assert forall|i: int| 0 <= i < s.len() implies ascii_lower(ascii_lower(#[trigger] s[i]))
        == ascii_lower(s[i]) && ascii_lower(ascii_upper(s[i])) == ascii_lower(s[i]) && ((s[i] as u32)
        < 0x80 ==> (ascii_lower(s[i]) as u32) < 0x80 && (ascii_upper(s[i]) as u32) < 0x80) by {
        lemma_ascii_case_char(s[i]);
    }
    assert(ascii_lower_seq(ascii_lower_seq(s)) =~= ascii_lower_seq(s));
    assert(ascii_lower_seq(ascii_upper_seq(s)) =~= ascii_lower_seq(s));
    if all_ascii(s) {
        assert forall|i: int| 0 <= i < s.len() implies (#[trigger] ascii_lower_seq(s)[i] as u32)
            < 0x80 by {
            assert((s[i] as u32) < 0x80);
        }
        assert forall|i: int| 0 <= i < s.len() implies (#[trigger] ascii_upper_seq(s)[i] as u32)
            < 0x80 by {
            assert((s[i] as u32) < 0x80);
        }
    }
}

/// A stretch of ASCII text is ASCII.
pub proof fn lemma_ascii_subrange(s: Seq<char>, a: int, b: int)
    requires
        all_ascii(s),
        0 <= a <= b <= s.len(),
    ensures
        all_ascii(s.subrange(a, b)),
{
    assert forall|i: int| 0 <= i < b - a implies (#[trigger] s.subrange(a, b)[i] as u32) < 0x80 by {
        assert(s.subrange(a, b)[i] == s[a + i]);
    }
}

/// `char::to_ascii_lowercase`.
pub fn ascii_lower_char(c: char) -> (d: char)
    ensures
        d == ascii_lower(c),
{
    if 'A' <= c && c <= 'Z' {
        let u = (c as u32) + 32;
        assert(u < 0xd800);
        char_below_surrogates(u)
    } else {
        c
    }
}

/// `char::from_u32`. Claimed (its documentation): the character with code
/// point `u` when `u` is a Unicode scalar value, that is below 0xD800 or from
/// 0xE000 to 0x10FFFF; `None` otherwise.
#[verifier::external_body]
fn char_from_u32(u: u32) -> (r: Option<char>)
    ensures
        match r {
            Some(c) => c as u32 == u,
            None => !(u < 0xd800 || (0xe000 <= u && u <= 0x10ffff)),
        },
{
    char::from_u32(u)
}

/// The character with a code point below the surrogate range.
fn char_below_surrogates(u: u32) -> (c: char)
    requires
        u < 0xd800,
    ensures
        c as u32 == u,
{
    match char_from_u32(u) {
        Some(c) => c,
        None => {
            proof {
                assert(false);
            }
            '\0'
        },
    }
}

/// `str::to_ascii_lowercase` on a character sequence.
pub fn ascii_lower_chars(s: &[char]) -> (t: Vec<char>)
    ensures
        t@ == ascii_lower_seq(s@),
{
    let mut t: Vec<char> = Vec::new();
    let mut i: usize = 0;
    while i < s.len()
        invariant
            0 <= i <= s.len(),
            t@ == ascii_lower_seq(s@.take(i as int)),
        decreases s.len() - i,
    {
        let d = ascii_lower_char(s[i]);
        t.push(d);
        i = i + 1;
        assert(t@ =~= ascii_lower_seq(s@.take(i as int)));
    }
    assert(s@.take(s.len() as int) =~= s@);
    t
}

/// `str::starts_with`: `p` is a prefix of `s`.
pub open spec fn has_prefix(s: Seq<char>, p: Seq<char>) -> bool {
    p.len() <= s.len() && s.take(p.len() as int) == p
}

/// Whether `p` occurs in `s` at position `at`.
pub open spec fn occurs_at(s: Seq<char>, at: int, p: Seq<char>) -> bool {
    0 <= at && at + p.len() <= s.len() && s.subrange(at, at + p.len()) == p
}

/// Executable form of [`occurs_at`].
pub fn matches_at(s: &[char], at: usize, p: &[char]) -> (b: bool)
    ensures
        b == occurs_at(s@, at as int, p@),
{
    if at > s.len() || p.len() > s.len() - at {
        return false;
    }
    let mut k: usize = 0;
    while k < p.len()
        invariant
            0 <= k <= p.len(),
            at + p.len() <= s.len(),
            s@.subrange(at as int, at + k) == p@.take(k as int),
        decreases p.len() - k,
    {
        if s[at + k] != p[k] {
            assert(s@.subrange(at as int, at + p.len())[k as int] != p@[k as int]);
            return false;
        }
        k = k + 1;
        assert(s@.subrange(at as int, at + k) =~= p@.take(k as int));
    }
    assert(p@.take(p.len() as int) =~= p@);
    true
}

/// Executable form of [`has_prefix`].
pub fn starts_with_chars(s: &[char], p: &[char]) -> (b: bool)
    ensures
        b == has_prefix(s@, p@),
{
    let b = matches_at(s, 0, p);
    assert(s@.subrange(0, p@.len() as int) =~= s@.take(p@.len() as int));
    b
}

/// `str::replace`: every non-overlapping occurrence of `pat`, from the left,
/// replaced by `rep`.
pub open spec fn replace_all(s: Seq<char>, pat: Seq<char>, rep: Seq<char>) -> Seq<char>
    decreases s.len(),
{
    if pat.len() == 0 || s.len() == 0 {
        s
    } else if has_prefix(s, pat) {
        rep + replace_all(s.skip(pat.len() as int), pat, rep)
    } else {
        seq![s[0]] + replace_all(s.skip(1), pat, rep)
    }
}

/// `str::replace` on character sequences, for a non-empty pattern.
pub fn replace_chars(s: &[char], pat: &[char], rep: &[char]) -> (t: Vec<char>)
    requires
        pat@.len() > 0,
    ensures
        t@ == replace_all(s@, pat@, rep@),
{
    let mut t: Vec<char> = Vec::new();
    let mut i: usize = 0;
    assert(s@.skip(0) =~= s@);
    while i < s.len()
        invariant
            0 <= i <= s.len(),
            pat@.len() > 0,
            t@ + replace_all(s@.skip(i as int), pat@, rep@) == replace_all(s@, pat@, rep@),
        decreases s.len() - i,
    {
        let ghost rest = s@.skip(i as int);
        let hit = matches_at(s, i, pat);
        if hit {
            assert(rest.take(pat@.len() as int) =~= s@.subrange(i as int, i + pat@.len()));
            assert(has_prefix(rest, pat@));
            assert(rest.skip(pat@.len() as int) =~= s@.skip(i + pat@.len()));
            let ghost before = t@;
            extend_chars(&mut t, rep);
            i = i + pat.len();
            assert(t@ + replace_all(s@.skip(i as int), pat@, rep@) =~= before + (rep@
                + replace_all(rest.skip(pat@.len() as int), pat@, rep@)));
        } else {
            proof {
                if has_prefix(rest, pat@) {
                    assert(rest.take(pat@.len() as int) =~= s@.subrange(i as int, i + pat@.len()));
                }
            }
            assert(rest.skip(1) =~= s@.skip(i + 1));
            let ghost before = t@;
            t.push(s[i]);
            i = i + 1;
            assert(t@ + replace_all(s@.skip(i as int), pat@, rep@) =~= before + (seq![rest[0]]
                + replace_all(rest.skip(1), pat@, rep@)));
        }
    }
    assert(replace_all(s@.skip(i as int), pat@, rep@) =~= Seq::<char>::empty());
    assert(t@ + Seq::<char>::empty() =~= t@);
    t
}

/// `str::split_whitespace`: the maximal runs of non-white-space characters,
/// from left to right.
pub open spec fn words(s: Seq<char>) -> Seq<Seq<char>>
    decreases s.len(),
{
    if s.len() == 0 {
        Seq::empty()
    } else {
        let w = words(s.drop_last());
        let c = s.last();
        if is_space(c) {
            w
        } else if s.len() >= 2 && !is_space(s[s.len() - 2]) {
            w.drop_last().push(w.last().push(c))
        } else {
            w.push(seq![c])
        }
    }
}

/// `[..].join(sep)`: the parts with `sep` between each two of them.
pub open spec fn join(parts: Seq<Seq<char>>, sep: Seq<char>) -> Seq<char>
    decreases parts.len(),
{
    if parts.len() == 0 {
        Seq::empty()
    } else if parts.len() == 1 {
        parts[0]
    } else {
        join(parts.drop_last(), sep) + sep + parts.last()
    }
}

/// The words of `s` joined by single spaces.
pub open spec fn collapse_spaces(s: Seq<char>) -> Seq<char> {
    join(words(s), seq![' '])
}

/// The words of a sequence are non-empty and hold no white space; a
/// non-white-space last character ends the last word.
proof fn lemma_words_shape(s: Seq<char>)
    ensures
        forall|k: int|
            0 <= k < words(s).len() ==> (#[trigger] words(s)[k]).len() > 0 && !has_space(
                words(s)[k],
            ),
        s.len() > 0 && !is_space(s.last()) ==> words(s).len() > 0 && words(s).last().last()
            == s.last(),
    decreases s.len(),
{
    if s.len() > 0 {
        lemma_words_shape(s.drop_last());
        let w = words(s.drop_last());
        let c = s.last();
        if is_space(c) {
        } else if s.len() >= 2 && !is_space(s[s.len() - 2]) {
            assert(s.drop_last().last() == s[s.len() - 2]);
            let nw = w.drop_last().push(w.last().push(c));
            assert forall|k: int| 0 <= k < nw.len() implies (#[trigger] nw[k]).len() > 0
                && !has_space(nw[k]) by {
                if k < nw.len() - 1 {
                    assert(nw[k] == w[k]);
                } else {
                    assert(nw[k] == w.last().push(c));
                    assert(w.last() == w[w.len() - 1]);
                    assert forall|m: int| 0 <= m < nw[k].len() implies !is_space(
                        #[trigger] nw[k][m],
                    ) by {
                        if m < nw[k].len() - 1 {
                            assert(nw[k][m] == w[w.len() - 1][m]);
                        }
                    }
                }
            }
        } else {
            let nw = w.push(seq![c]);
            assert forall|k: int| 0 <= k < nw.len() implies (#[trigger] nw[k]).len() > 0
                && !has_space(nw[k]) by {
                if k < nw.len() - 1 {
                    assert(nw[k] == w[k]);
                }
            }
        }
    }
}

/// Some character of `w` is white space.
pub open spec fn has_space(w: Seq<char>) -> bool {
    exists|m: int| 0 <= m < w.len() && is_space(#[trigger] w[m])
}

pub(crate) proof fn lemma_join_empty(parts: Seq<Seq<char>>, sep: Seq<char>)
    requires
        forall|k: int| 0 <= k < parts.len() ==> (#[trigger] parts[k]).len() > 0,
    ensures
        (join(parts, sep).len() == 0) == (parts.len() == 0),
    decreases parts.len(),
{
    if parts.len() > 1 {
        assert(parts.last() == parts[parts.len() - 1]);
    } else if parts.len() == 1 {
        assert(parts[0].len() > 0);
    }
}

/// `split_whitespace().collect::<Vec<_>>().join(" ")` on a character sequence.
pub fn collapse_spaces_chars(s: &[char]) -> (t: Vec<char>)
    ensures
        t@ == collapse_spaces(s@),
{
    let mut t: Vec<char> = Vec::new();
    let mut i: usize = 0;
    while i < s.len()
        invariant
            0 <= i <= s.len(),
            t@ == collapse_spaces(s@.take(i as int)),
        decreases s.len() - i,
    {
        let c = s[i];
        let ghost pre = s@.take(i as int);
        let ghost cur = s@.take(i + 1);
        assert(cur.drop_last() =~= pre);
        assert(cur.last() == c);
        proof {
            lemma_words_shape(pre);
            lemma_join_empty(words(pre), seq![' ']);
        }
        if is_space_char(c) {
        } else if i > 0 && !is_space_char(s[i - 1]) {
            assert(cur[cur.len() - 2] == s@[i - 1]);
            assert(pre.last() == s@[i - 1]);
            let ghost w = words(pre);
            proof {
                assert(w.len() > 0);
                if w.len() == 1 {
                    assert(w.drop_last().push(w.last().push(c)) =~= seq![w[0].push(c)]);
                } else {
                    assert(w.drop_last().push(w.last().push(c)).drop_last() =~= w.drop_last());
                }
            }
            t.push(c);
        } else {
            if i > 0 {
                assert(cur[cur.len() - 2] == s@[i - 1]);
            }
            let ghost w = words(pre);
            assert(w.push(seq![c]).drop_last() =~= w);
            if t.len() > 0 {
                t.push(' ');
            }
            t.push(c);
            proof {
                if w.len() == 0 {
                    assert(t@ =~= seq![c]);
                } else {
                    assert(t@ =~= join(w, seq![' ']) + seq![' '] + seq![c]);
                }
            }
        }
        i = i + 1;
    }
    assert(s@.take(s.len() as int) =~= s@);
    t
}

/// The decimal digit for `d < 10`.
pub open spec fn digit(d: nat) -> char {
    ((d + 48) as u32) as char
}

/// `u64`'s `Display`: decimal digits without leading zeros.
pub open spec fn decimal(n: nat) -> Seq<char>
    decreases n,
{
    if n < 10 {
        seq![digit(n)]
    } else {
        decimal(n / 10).push(digit(n % 10))
    }
}

/// `i64`'s `Display`: a minus sign before negative numbers.
pub open spec fn signed_decimal(n: int) -> Seq<char> {
    if n < 0 {
        seq!['-'] + decimal((-n) as nat)
    } else {
        decimal(n as nat)
    }
}

fn digit_char(d: u64) -> (c: char)
    requires
        d < 10,
    ensures
        c == digit(d as nat),
{
    let c = char_below_surrogates((d as u32) + 48);
    c
}

/// The decimal representation of `n`.
pub fn decimal_chars(n: u64) -> (v: Vec<char>)
    ensures
        v@ == decimal(n as nat),
    decreases n,
{
    if n < 10 {
        let mut v: Vec<char> = Vec::new();
        v.push(digit_char(n));
        v
    } else {
        let mut v = decimal_chars(n / 10);
        v.push(digit_char(n % 10));
        v
    }
}

/// The decimal representation of a signed number.
pub fn signed_decimal_chars(n: i64) -> (v: Vec<char>)
    ensures
        v@ == signed_decimal(n as int),
{
    if n < 0 {
        let m: u64 = if n == i64::MIN {
            9223372036854775808u64
        } else {
            (-n) as u64
        };
        let digits = decimal_chars(m);
        let mut v: Vec<char> = Vec::new();
        v.push('-');
        extend_chars(&mut v, &digits);
        assert(v@ =~= seq!['-'] + decimal((-n) as nat));
        v
    } else {
        decimal_chars(n as u64)
    }
}

/// What `trim_start` leaves is a suffix of `s` that does not start with white space.
proof fn lemma_trim_start_shape(s: Seq<char>)
    ensures
        exists|k: int| 0 <= k <= s.len() && trim_start(s) == s.skip(k),
        trim_start(s).len() == 0 || !is_space(trim_start(s)[0]),
    decreases s.len(),
{
    if s.len() > 0 && is_space(s[0]) {
        lemma_trim_start_shape(s.drop_first());
        let k = choose|k: int| 0 <= k <= s.drop_first().len() && trim_start(s.drop_first()) == s.drop_first().skip(k);
        assert(s.drop_first().skip(k) =~= s.skip(k + 1));
    } else {
        assert(s.skip(0) =~= s);
    }
}

/// What `trim_end` leaves is a prefix of `s` that does not end with white space.
proof fn lemma_trim_end_shape(s: Seq<char>)
    ensures
        exists|k: int| 0 <= k <= s.len() && trim_end(s) == s.take(k),
        trim_end(s).len() == 0 || !is_space(trim_end(s).last()),
    decreases s.len(),
{
    if s.len() > 0 && is_space(s.last()) {
        lemma_trim_end_shape(s.drop_last());
        let k = choose|k: int| 0 <= k <= s.drop_last().len() && trim_end(s.drop_last()) == s.drop_last().take(k);
        assert(s.drop_last().take(k) =~= s.take(k));
    } else {
        assert(s.take(s.len() as int) =~= s);
    }
}

/// A trimmed sequence neither starts nor ends with white space.
proof fn lemma_trim_shape(s: Seq<char>)
    ensures
        trim(s).len() > 0 ==> !is_space(trim(s)[0]) && !is_space(trim(s).last()),
{
    let t = trim_start(s);
    lemma_trim_start_shape(s);
    lemma_trim_end_shape(t);
    let k = choose|k: int| 0 <= k <= t.len() && trim_end(t) == t.take(k);
    if trim(s).len() > 0 {
        assert(trim(s)[0] == t[0]);
    }
}

/// Trimming twice is trimming once.
pub proof fn lemma_trim_idempotent(s: Seq<char>)
    ensures
        trim(trim(s)) == trim(s),
{
    let u = trim(s);
    lemma_trim_shape(s);
    if u.len() == 0 {
        assert(trim_start(u) == u);
    } else {
        assert(trim_start(u) == u);
        assert(trim_end(u) == u);
    }
}

proof fn lemma_trim_start_empty(s: Seq<char>)
    ensures
        (trim_start(s).len() == 0) == all_space(s),
    decreases s.len(),
{
    if s.len() > 0 {
        if is_space(s[0]) {
            let t = s.drop_first();
            lemma_trim_start_empty(t);
            if all_space(t) {
                assert forall|i: int| 0 <= i < s.len() implies is_space(#[trigger] s[i]) by {
                    if i > 0 {
                        assert(s[i] == t[i - 1]);
                    }
                }
            }
            if all_space(s) {
                assert forall|i: int| 0 <= i < t.len() implies is_space(#[trigger] t[i]) by {
                    assert(t[i] == s[i + 1]);
                }
            }
        } else {
            assert(!is_space(s[0]));
        }
    }
}

proof fn lemma_trim_end_nonempty(t: Seq<char>)
    requires
        t.len() > 0,
        !is_space(t[0]),
    ensures
        trim_end(t).len() > 0,
    decreases t.len(),
{
    if is_space(t.last()) {
        assert(t.drop_last()[0] == t[0]);
        lemma_trim_end_nonempty(t.drop_last());
    }
}

/// A sequence trims to nothing exactly when it is all white space.
pub(crate) proof fn lemma_trim_empty(s: Seq<char>)
    ensures
        (trim(s).len() == 0) == all_space(s),
{
    lemma_trim_start_empty(s);
    lemma_trim_start_shape(s);
    let t = trim_start(s);
    if t.len() > 0 {
        lemma_trim_end_nonempty(t);
    }
}

/// A leading space does not change what a sequence trims to.
pub(crate) proof fn lemma_trim_after_space(x: Seq<char>)
    ensures
        trim(seq![' '] + x) == trim(x),
{
    let y = seq![' '] + x;
    assert(is_space(y[0]));
    assert(y.drop_first() =~= x);
}

/// What `trim` leaves is a stretch of `s`.
pub(crate) proof fn lemma_trim_subrange(s: Seq<char>)
    ensures
        exists|a: int, b: int| 0 <= a <= b <= s.len() && trim(s) == s.subrange(a, b),
{
    lemma_trim_start_shape(s);
    let a = choose|k: int| 0 <= k <= s.len() && trim_start(s) == s.skip(k);
    let t = trim_start(s);
    lemma_trim_end_shape(t);
    let j = choose|k: int| 0 <= k <= t.len() && trim_end(t) == t.take(k);
    assert(t.take(j) =~= s.subrange(a, a + j));
}

/// Appends the characters of a string slice to `dst`.
pub fn push_str(dst: &mut Vec<char>, s: &str)
    ensures
        final(dst)@ == old(dst)@ + s@,
{
    let v = chars_of(s);
    extend_chars(dst, &v);
}

/// The concatenation of two string slices.
pub fn concat2(a: &str, b: &str) -> (s: String)
    ensures
        s@ == a@ + b@,
{
    let mut v = chars_of(a);
    push_str(&mut v, b);
    string_of(&v)
}

/// The concatenation of three string slices.
pub fn concat3(a: &str, b: &str, c: &str) -> (s: String)
    ensures
        s@ == a@ + b@ + c@,
{
    let mut v = chars_of(a);
    push_str(&mut v, b);
    push_str(&mut v, c);
    string_of(&v)
}

/// `[..].join(sep)` on strings.
pub fn join_strings(parts: &Vec<String>, sep: &str) -> (s: String)
    ensures
        s@ == join(parts@.map_values(|p: String| p@), sep@),
{
    let ghost views = parts@.map_values(|p: String| p@);
    let mut out: Vec<char> = Vec::new();
    let mut i: usize = 0;
    while i < parts.len()
        invariant
            0 <= i <= parts.len(),
            views == parts@.map_values(|p: String| p@),
            out@ == join(views.take(i as int), sep@),
        decreases parts.len() - i,
    {
        assert(views.take(i + 1).drop_last() =~= views.take(i as int));
        assert(views.take(i + 1).last() == parts@[i as int]@);
        if i > 0 {
            push_str(&mut out, sep);
        } else {
            assert(views.take(1) =~= seq![views[0]]);
        }
        push_str(&mut out, parts[i].as_str());
        i = i + 1;
    }
    assert(views.take(parts.len() as int) =~= views);
    string_of(&out)
}

/// White space in `t` is only single spaces between two other characters.
pub open spec fn is_collapsed(t: Seq<char>) -> bool {
    forall|i: int|
        0 <= i < t.len() && is_space(#[trigger] t[i]) ==> t[i] == ' ' && 0 < i < t.len() - 1
            && !is_space(t[i - 1]) && !is_space(t[i + 1])
}

proof fn lemma_join_collapsed(parts: Seq<Seq<char>>)
    requires
        forall|k: int|
            0 <= k < parts.len() ==> (#[trigger] parts[k]).len() > 0 && !has_space(parts[k]),
    ensures
        is_collapsed(join(parts, seq![' '])),
        join(parts, seq![' ']).len() > 0 ==> !is_space(join(parts, seq![' '])[0]) && !is_space(
            join(parts, seq![' ']).last(),
        ),
        (join(parts, seq![' ']).len() == 0) == (parts.len() == 0),
    decreases parts.len(),
{
    if parts.len() == 1 {
        let w = parts[0];
        assert(!has_space(w));
        assert forall|i: int| 0 <= i < w.len() implies !is_space(#[trigger] w[i]) by {
            if is_space(w[i]) {
                assert(has_space(w));
            }
        }
    } else if parts.len() > 1 {
        let head = parts.drop_last();
        let w = parts.last();
        assert(w == parts[parts.len() - 1]);
        assert(!has_space(w));
        assert forall|k: int|
            0 <= k < head.len() implies (#[trigger] head[k]).len() > 0 && !has_space(head[k]) by {
            assert(head[k] == parts[k]);
        }
        lemma_join_collapsed(head);
        let j = join(head, seq![' ']);
        let t = join(parts, seq![' ']);
        assert(t == j + seq![' '] + w);
        let n = j.len() as int;
        assert forall|i: int| 0 <= i < w.len() implies !is_space(#[trigger] w[i]) by {
            if is_space(w[i]) {
                assert(has_space(w));
            }
        }
        assert forall|i: int| 0 <= i < t.len() && is_space(#[trigger] t[i]) implies t[i] == ' '
            && 0 < i < t.len() - 1 && !is_space(t[i - 1]) && !is_space(t[i + 1]) by {
            if i < n {
                assert(t[i] == j[i]);
                if i + 1 < n {
                    assert(t[i + 1] == j[i + 1]);
                }
                if i > 0 {
                    assert(t[i - 1] == j[i - 1]);
                }
            } else if i == n {
                assert(t[i - 1] == j.last());
                assert(t[i + 1] == w[0]);
            } else {
                assert(t[i] == w[i - n - 1]);
            }
        }
        assert(t[0] == j[0]);
        assert(t.last() == w.last());
    }
}

/// Law: after `split_whitespace` and `join(" ")` the text has no white space
/// at either end and none but single spaces between words.
pub proof fn lemma_collapsed(s: Seq<char>)
    ensures
        is_collapsed(collapse_spaces(s)),
        collapse_spaces(s).len() > 0 ==> !is_space(collapse_spaces(s)[0]) && !is_space(
            collapse_spaces(s).last(),
        ),
{
    lemma_words_shape(s);
    lemma_join_collapsed(words(s));
}

/// `c` does not occur in `s`.
pub open spec fn lacks(s: Seq<char>, c: char) -> bool {
    forall|i: int| 0 <= i < s.len() ==> s[i] != c
}

/// Replacing a pattern whose first character does not occur changes nothing.
pub(crate) proof fn lemma_replace_absent(s: Seq<char>, pat: Seq<char>, rep: Seq<char>)
    requires
        pat.len() > 0,
        lacks(s, pat[0]),
    ensures
        replace_all(s, pat, rep) == s,
    decreases s.len(),
{
    if s.len() > 0 {
        if pat.len() <= s.len() {
            assert(s.take(pat.len() as int)[0] == s[0]);
        }
        assert(!has_prefix(s, pat));
        let t = s.skip(1);
        assert forall|i: int| 0 <= i < t.len() implies t[i] != pat[0] by {
            assert(t[i] == s[i + 1]);
        }
        lemma_replace_absent(t, pat, rep);
        assert(seq![s[0]] + t =~= s);
    }
}

/// Appending a word after nothing or after white space adds it as the last word.
proof fn lemma_words_append_word(x: Seq<char>, w: Seq<char>)
    requires
        w.len() > 0,
        !has_space(w),
        x.len() == 0 || is_space(x.last()),
    ensures
        words(x + w) == words(x).push(w),
    decreases w.len(),
{
    let y = x + w;
    assert(y.last() == w[w.len() - 1]);
    assert(!is_space(w[w.len() - 1]));
    assert(y.drop_last() =~= x + w.drop_last());
    if w.len() == 1 {
        assert(x + w.drop_last() =~= x);
        assert(w =~= seq![w[0]]);
        if y.len() >= 2 {
            assert(y[y.len() - 2] == x.last());
        }
    } else {
        assert(!has_space(w.drop_last())) by {
            if has_space(w.drop_last()) {
                let m = choose|m: int| 0 <= m < w.drop_last().len() && is_space(w.drop_last()[m]);
                assert(w.drop_last()[m] == w[m]);
                assert(is_space(w[m]));
            }
        }
        lemma_words_append_word(x, w.drop_last());
        assert(y[y.len() - 2] == w[w.len() - 2]);
        assert(!is_space(w[w.len() - 2]));
        assert(words(x).push(w.drop_last()).drop_last() =~= words(x));
        assert(w.drop_last().push(w[w.len() - 1]) =~= w);
    }
}

/// Splitting words joined by single spaces gives the words back.
proof fn lemma_words_join(ws: Seq<Seq<char>>)
    requires
        forall|k: int| 0 <= k < ws.len() ==> (#[trigger] ws[k]).len() > 0 && !has_space(ws[k]),
    ensures
        words(join(ws, seq![' '])) == ws,
    decreases ws.len(),
{
    if ws.len() == 1 {
        lemma_words_append_word(Seq::empty(), ws[0]);
        assert(Seq::<char>::empty() + ws[0] =~= ws[0]);
        assert(Seq::<Seq<char>>::empty().push(ws[0]) =~= ws);
    } else if ws.len() > 1 {
        let init = ws.drop_last();
        let w = ws[ws.len() - 1];
        assert forall|k: int| 0 <= k < init.len() implies (#[trigger] init[k]).len() > 0
            && !has_space(init[k]) by {
            assert(init[k] == ws[k]);
        }
        lemma_words_join(init);
        let j = join(init, seq![' ']);
        let x = j + seq![' '];
        assert(x.drop_last() =~= j);
        assert(is_space(x.last()));
        lemma_words_append_word(x, w);
        assert(join(ws, seq![' ']) == x + w);
        assert(init.push(w) =~= ws);
    }
}

/// Law: collapsing white space twice is collapsing it once.
pub proof fn lemma_collapse_idempotent(s: Seq<char>)
    ensures
        collapse_spaces(collapse_spaces(s)) == collapse_spaces(s),
{
    lemma_words_shape(s);
    lemma_words_join(words(s));
}

proof fn lemma_words_lack(s: Seq<char>, c: char)
    requires
        lacks(s, c),
    ensures
        forall|k: int| 0 <= k < words(s).len() ==> lacks(#[trigger] words(s)[k], c),
    decreases s.len(),
{
    if s.len() > 0 {
        let t = s.drop_last();
        assert forall|i: int| 0 <= i < t.len() implies t[i] != c by {
            assert(t[i] == s[i]);
        }
        lemma_words_lack(t, c);
        lemma_words_shape(t);
        let w = words(t);
        let d = s.last();
        assert(d == s[s.len() - 1]);
        if is_space(d) {
        } else if s.len() >= 2 && !is_space(s[s.len() - 2]) {
            assert(t.last() == s[s.len() - 2]);
            let nw = w.drop_last().push(w.last().push(d));
            assert forall|k: int| 0 <= k < nw.len() implies lacks(#[trigger] nw[k], c) by {
                if k < nw.len() - 1 {
                    assert(nw[k] == w[k]);
                } else {
                    assert(w.last() == w[w.len() - 1]);
                    assert forall|m: int| 0 <= m < nw[k].len() implies nw[k][m] != c by {
                        if m < nw[k].len() - 1 {
                            assert(nw[k][m] == w[w.len() - 1][m]);
                        }
                    }
                }
            }
        } else {
            let nw = w.push(seq![d]);
            assert forall|k: int| 0 <= k < nw.len() implies lacks(#[trigger] nw[k], c) by {
                if k < nw.len() - 1 {
                    assert(nw[k] == w[k]);
                }
            }
        }
    }
}

proof fn lemma_join_lack(parts: Seq<Seq<char>>, c: char)
    requires
        c != ' ',
        forall|k: int| 0 <= k < parts.len() ==> lacks(#[trigger] parts[k], c),
    ensures
        lacks(join(parts, seq![' ']), c),
    decreases parts.len(),
{
    if parts.len() == 1 {
        assert(lacks(parts[0], c));
    } else if parts.len() > 1 {
        let init = parts.drop_last();
        let w = parts[parts.len() - 1];
        assert(lacks(w, c));
        assert forall|k: int| 0 <= k < init.len() implies lacks(#[trigger] init[k], c) by {
            assert(init[k] == parts[k]);
        }
        lemma_join_lack(init, c);
        let j = join(init, seq![' ']);
        let t = join(parts, seq![' ']);
        assert(t == j + seq![' '] + w);
        assert forall|i: int| 0 <= i < t.len() implies t[i] != c by {
            if i < j.len() {
                assert(t[i] == j[i]);
            } else if i == j.len() {
                assert(t[i] == ' ');
            } else {
                assert(t[i] == w[i - j.len() - 1]);
            }
        }
    }
}

/// A character other than a space that does not occur in `s` does not occur
/// once its white space is collapsed.
pub(crate) proof fn lemma_collapse_lacks(s: Seq<char>, c: char)
    requires
        c != ' ',
        lacks(s, c),
    ensures
        lacks(collapse_spaces(s), c),
{
    lemma_words_lack(s, c);
    lemma_join_lack(words(s), c);
}

} // verus!
