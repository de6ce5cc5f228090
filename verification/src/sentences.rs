//! Cutting a reply into sentences, so that speech can start with the first
//! sentence while the next ones are still being synthesised.
use vstd::prelude::*;
use crate::text;
use crate::text::{string_of, trim_chars};

verus! {

/// A sentence-ending mark.
pub open spec fn is_terminal(c: char) -> bool {
    c == '.' || c == '!' || c == '?'
}

/// The character at `i` ends a sentence: it is a terminal mark followed by a
/// space, a newline or the end of the text.
pub open spec fn ends_sentence(s: Seq<char>, i: int) -> bool {
    &&& 0 <= i < s.len()
    &&& is_terminal(s[i])
    &&& (i + 1 == s.len() || s[i + 1] == ' ' || s[i + 1] == '\n')
}

/// `done` with `piece` added unless `piece` is empty.
pub open spec fn keep_piece(done: Seq<Seq<char>>, piece: Seq<char>) -> Seq<Seq<char>> {
    if piece.len() > 0 {
        done.push(piece)
    } else {
        done
    }
}

/// After reading the first `n` characters of `s`: the trimmed, non-empty
/// sentences completed so far, and the characters of the sentence under way.
pub open spec fn cut_prefix(s: Seq<char>, n: int) -> (Seq<Seq<char>>, Seq<char>)
    decreases n,
{
    if n <= 0 {
        (Seq::empty(), Seq::empty())
    } else {
        let (done, cur) = cut_prefix(s, n - 1);
        let cur2 = cur.push(s[n - 1]);
        if ends_sentence(s, n - 1) {
            (keep_piece(done, text::trim(cur2)), Seq::empty())
        } else {
            (done, cur2)
        }
    }
}

/// The sentences of `s`: the text cut after every sentence end, each piece
/// trimmed, and the empty pieces left out.
pub open spec fn sentences(s: Seq<char>) -> Seq<Seq<char>> {
    let (done, cur) = cut_prefix(s, s.len() as int);
    keep_piece(done, text::trim(cur))
}

/// The character views of a vector of strings.
pub open spec fn string_views(v: Seq<String>) -> Seq<Seq<char>> {
    v.map_values(|s: String| s@)
}

/// Splits `text` into sentences on `.`, `!` or `?` followed by a space, a
/// newline or the end of the text; each sentence is trimmed and empty ones
/// are dropped.
pub fn split_sentences(text: &str) -> (out: Vec<String>)
    ensures
        string_views(out@) == sentences(text@),
{
    let chars = text::chars_of(text);
    let mut sentences_out: Vec<String> = Vec::new();
    let mut current: Vec<char> = Vec::new();
    let mut i: usize = 0;
    while i < chars.len()
        invariant
            0 <= i <= chars.len(),
            chars@ == text@,
            cut_prefix(chars@, i as int) == (string_views(sentences_out@), current@),
        decreases chars.len() - i,
    {
        let ch = chars[i];
        current.push(ch);
        let at_end = i + 1 == chars.len();
        let ends = (ch == '.' || ch == '!' || ch == '?') && (at_end || chars[i + 1] == ' '
            || chars[i + 1] == '\n');
        if ends {
            let piece = trim_chars(&current);
            if piece.len() > 0 {
                let s = string_of(&piece);
                let ghost before = sentences_out@;
                sentences_out.push(s);
                assert(string_views(sentences_out@) =~= string_views(before).push(piece@));
            }
            current = Vec::new();
            assert(current@ =~= Seq::<char>::empty());
        }
        i = i + 1;
    }
    let tail = trim_chars(&current);
    if tail.len() > 0 {
        let s = string_of(&tail);
        let ghost before = sentences_out@;
        sentences_out.push(s);
        assert(string_views(sentences_out@) =~= string_views(before).push(tail@));
    }
    sentences_out
}

/// Every piece in the completed part of a prefix scan is non-empty and trimmed.
proof fn lemma_cut_prefix_trimmed(s: Seq<char>, n: int)
    ensures
        forall|k: int|
            0 <= k < cut_prefix(s, n).0.len() ==> (#[trigger] cut_prefix(s, n).0[k]).len() > 0
                && text::trim(cut_prefix(s, n).0[k]) == cut_prefix(s, n).0[k],
    decreases n,
{
    if n > 0 {
        lemma_cut_prefix_trimmed(s, n - 1);
        let (done, cur) = cut_prefix(s, n - 1);
        let cur2 = cur.push(s[n - 1]);
        text::lemma_trim_idempotent(cur2);
    }
}

/// Law: every sentence is non-empty and has no white space at either end,
/// so trimming it, or dropping the sentences that trim to nothing, changes
/// nothing.
pub proof fn lemma_sentences_trimmed(s: Seq<char>)
    ensures
        forall|k: int|
            0 <= k < sentences(s).len() ==> (#[trigger] sentences(s)[k]).len() > 0
                && text::trim(sentences(s)[k]) == sentences(s)[k],
{
    lemma_cut_prefix_trimmed(s, s.len() as int);
    let (done, cur) = cut_prefix(s, s.len() as int);
    text::lemma_trim_idempotent(cur);
}

/// No sentence ends inside `c`: no terminal mark in it is followed, within
/// it, by a space or a newline.
pub open spec fn no_inner_end(c: Seq<char>) -> bool {
    forall|i: int|
        0 <= i < c.len() - 1 ==> !(is_terminal(#[trigger] c[i]) && (c[i + 1] == ' ' || c[i + 1]
            == '\n'))
}

proof fn lemma_no_inner_end_subrange(c: Seq<char>, a: int, b: int)
    requires
        0 <= a <= b <= c.len(),
        no_inner_end(c),
    ensures
        no_inner_end(c.subrange(a, b)),
{
    let d = c.subrange(a, b);
    assert forall|i: int| 0 <= i < d.len() - 1 implies !(is_terminal(#[trigger] d[i]) && (d[i + 1]
        == ' ' || d[i + 1] == '\n')) by {
        assert(d[i] == c[a + i]);
        assert(d[i + 1] == c[a + i + 1]);
    }
}

proof fn lemma_trim_no_inner_end(c: Seq<char>)
    requires
        no_inner_end(c),
    ensures
        no_inner_end(text::trim(c)),
{
    text::lemma_trim_subrange(c);
    let (a, b) = choose|a: int, b: int| 0 <= a <= b <= c.len() && text::trim(c) == c.subrange(a, b);
    lemma_no_inner_end_subrange(c, a, b);
}

/// Inside a prefix scan: the sentence under way is the end of the prefix,
/// after a position that ends no sentence, and no sentence ends inside it
/// or inside a completed one.
proof fn lemma_cut_prefix_pieces(s: Seq<char>, n: int)
    requires
        0 <= n <= s.len(),
    ensures
        cut_prefix(s, n).1.len() <= n,
        cut_prefix(s, n).1 == s.subrange(n - cut_prefix(s, n).1.len(), n),
        cut_prefix(s, n).1.len() > 0 ==> !ends_sentence(s, n - 1),
        no_inner_end(cut_prefix(s, n).1),
        forall|k: int|
            0 <= k < cut_prefix(s, n).0.len() ==> no_inner_end(#[trigger] cut_prefix(s, n).0[k]),
    decreases n,
{
    if n > 0 {
        lemma_cut_prefix_pieces(s, n - 1);
        let (done, cur) = cut_prefix(s, n - 1);
        let cur2 = cur.push(s[n - 1]);
        assert(cur2 =~= s.subrange(n - cur2.len(), n));
        assert forall|i: int| 0 <= i < cur2.len() - 1 implies !(is_terminal(#[trigger] cur2[i]) && (
        cur2[i + 1] == ' ' || cur2[i + 1] == '\n')) by {
            if i < cur.len() - 1 {
                assert(cur2[i] == cur[i] && cur2[i + 1] == cur[i + 1]);
            } else {
                assert(cur2[i] == s[n - 2] && cur2[i + 1] == s[n - 1]);
            }
        }
        if ends_sentence(s, n - 1) {
            lemma_trim_no_inner_end(cur2);
            let piece = text::trim(cur2);
            if piece.len() > 0 {
                assert forall|k: int| 0 <= k < done.push(piece).len() implies no_inner_end(
                    #[trigger] done.push(piece)[k],
                ) by {
                    if k < done.len() {
                        assert(done.push(piece)[k] == done[k]);
                    }
                }
            }
        }
    }
}

/// A text with no sentence end inside it stays one piece up to its last
/// character.
proof fn lemma_cut_prefix_single(p: Seq<char>, n: int)
    requires
        0 <= n < p.len(),
        no_inner_end(p),
    ensures
        cut_prefix(p, n) == (Seq::<Seq<char>>::empty(), p.take(n)),
    decreases n,
{
    if n > 0 {
        lemma_cut_prefix_single(p, n - 1);
        assert(!ends_sentence(p, n - 1));
        assert(p.take(n - 1).push(p[n - 1]) =~= p.take(n));
    } else {
        assert(p.take(0) =~= Seq::<char>::empty());
    }
}

proof fn lemma_single_sentence(p: Seq<char>)
    requires
        p.len() > 0,
        text::trim(p) == p,
        no_inner_end(p),
    ensures
        sentences(p) == seq![p],
{
    let n = p.len() as int;
    lemma_cut_prefix_single(p, n - 1);
    assert(p.take(n - 1).push(p[n - 1]) =~= p);
    if ends_sentence(p, n - 1) {
        assert(cut_prefix(p, n) == (seq![p], Seq::<char>::empty()));
        assert(text::trim(Seq::<char>::empty()) =~= Seq::<char>::empty());
    } else {
        assert(cut_prefix(p, n) == (Seq::<Seq<char>>::empty(), p));
        assert(Seq::<Seq<char>>::empty().push(p) =~= seq![p]);
    }
}

/// Law: each sentence, split again, is that one sentence.
pub proof fn lemma_sentence_splits_to_itself(s: Seq<char>, k: int)
    requires
        0 <= k < sentences(s).len(),
    ensures
        sentences(sentences(s)[k]) == seq![sentences(s)[k]],
{
    let n = s.len() as int;
    lemma_cut_prefix_pieces(s, n);
    lemma_sentences_trimmed(s);
    let (done, cur) = cut_prefix(s, n);
    lemma_trim_no_inner_end(cur);
    let p = sentences(s)[k];
    if k < done.len() {
        assert(p == done[k]);
    }
    lemma_single_sentence(p);
}

/// A text and the same text after a sentence end and a space are cut alike
/// up to that sentence end.
proof fn lemma_cut_prefix_head(a: Seq<char>, b: Seq<char>, n: int)
    requires
        a.len() > 0,
        is_terminal(a.last()),
        0 <= n <= a.len(),
    ensures
        cut_prefix(a + seq![' '] + b, n) == cut_prefix(a, n),
    decreases n,
{
    let t = a + seq![' '] + b;
    if n > 0 {
        lemma_cut_prefix_head(a, b, n - 1);
        assert(t[n - 1] == a[n - 1]);
        if n < a.len() {
            assert(t[n] == a[n]);
        }
        assert(ends_sentence(t, n - 1) == ends_sentence(a, n - 1));
    }
}

/// Past the sentence end and the space, the cut of the joined text follows
/// the cut of `b`: the same sentences after those of `a`, and the same
/// sentence under way, perhaps after the space.
proof fn lemma_cut_prefix_tail(a: Seq<char>, b: Seq<char>, j: int)
    requires
        a.len() > 0,
        is_terminal(a.last()),
        0 <= j <= b.len(),
    ensures
        ({
            let t = a + seq![' '] + b;
            let (done, cur) = cut_prefix(t, a.len() + 1 + j);
            let (bd, bc) = cut_prefix(b, j);
            &&& done == sentences(a) + bd
            &&& (cur == bc || cur == seq![' '] + bc)
        }),
    decreases j,
{
    let t = a + seq![' '] + b;
    let l = a.len() as int;
    if j == 0 {
        lemma_cut_prefix_head(a, b, l);
        assert(ends_sentence(a, l - 1));
        assert(text::trim(Seq::<char>::empty()) =~= Seq::<char>::empty());
        assert(cut_prefix(a, l).1 == Seq::<char>::empty());
        assert(sentences(a) == cut_prefix(a, l).0);
        assert(t[l] == ' ');
        assert(!ends_sentence(t, l));
        assert(Seq::<char>::empty().push(' ') =~= seq![' '] + Seq::<char>::empty());
        assert(sentences(a) + Seq::<Seq<char>>::empty() =~= sentences(a));
    } else {
        lemma_cut_prefix_tail(a, b, j - 1);
        let (done, cur) = cut_prefix(t, l + j);
        let (bd, bc) = cut_prefix(b, j - 1);
        let c = b[j - 1];
        assert(t[l + j] == c);
        if j < b.len() {
            assert(t[l + j + 1] == b[j]);
        }
        assert(ends_sentence(t, l + j) == ends_sentence(b, j - 1));
        if cur != bc {
            assert(cur.push(c) =~= seq![' '] + bc.push(c));
            text::lemma_trim_after_space(bc.push(c));
        }
        let piece = text::trim(bc.push(c));
        assert((sentences(a) + bd).push(piece) =~= sentences(a) + bd.push(piece));
    }
}

/// Law: a text that ends with a sentence mark, a space and another text are
/// split into the sentences of the first followed by those of the second.
pub proof fn lemma_sentences_concat(a: Seq<char>, b: Seq<char>)
    requires
        a.len() > 0,
        is_terminal(a.last()),
    ensures
        sentences(a + seq![' '] + b) == sentences(a) + sentences(b),
{
    let t = a + seq![' '] + b;
    lemma_cut_prefix_tail(a, b, b.len() as int);
    let (done, cur) = cut_prefix(t, t.len() as int);
    let (bd, bc) = cut_prefix(b, b.len() as int);
    if cur != bc {
        text::lemma_trim_after_space(bc);
    }
    let piece = text::trim(bc);
    assert((sentences(a) + bd).push(piece) =~= sentences(a) + bd.push(piece));
}

/// The scan finds no sentence exactly when all it read is white space.
proof fn lemma_cut_prefix_blank(s: Seq<char>, n: int)
    requires
        0 <= n <= s.len(),
    ensures
        (cut_prefix(s, n).0.len() == 0 && text::all_space(cut_prefix(s, n).1)) == text::all_space(
            s.take(n),
        ),
    decreases n,
{
    if n > 0 {
        lemma_cut_prefix_blank(s, n - 1);
        let (done, cur) = cut_prefix(s, n - 1);
        let c = s[n - 1];
        let cur2 = cur.push(c);
        text::lemma_trim_empty(cur2);
        assert(text::all_space(cur2) == (text::all_space(cur) && text::is_space(c))) by {
            if text::all_space(cur) && text::is_space(c) {
                assert forall|i: int| 0 <= i < cur2.len() implies text::is_space(#[trigger] cur2[i]) by {
                    if i < cur.len() {
                        assert(cur2[i] == cur[i]);
                    }
                }
            }
            if text::all_space(cur2) {
                assert(cur2[cur.len() as int] == c);
                assert forall|i: int| 0 <= i < cur.len() implies text::is_space(#[trigger] cur[i]) by {
                    assert(cur2[i] == cur[i]);
                }
            }
        }
        assert(text::all_space(s.take(n)) == (text::all_space(s.take(n - 1)) && text::is_space(c))) by {
            let u = s.take(n);
            let v = s.take(n - 1);
            if text::all_space(v) && text::is_space(c) {
                assert forall|i: int| 0 <= i < u.len() implies text::is_space(#[trigger] u[i]) by {
                    if i < v.len() {
                        assert(u[i] == v[i]);
                    }
                }
            }
            if text::all_space(u) {
                assert(u[n - 1] == c);
                assert forall|i: int| 0 <= i < v.len() implies text::is_space(#[trigger] v[i]) by {
                    assert(u[i] == v[i]);
                }
            }
        }
        assert(text::all_space(Seq::<char>::empty()));
    } else {
        assert(text::all_space(Seq::<char>::empty()));
    }
}

/// Law: a text has no sentences exactly when it trims to nothing.
pub proof fn lemma_no_sentences_iff_blank(s: Seq<char>)
    ensures
        (sentences(s).len() == 0) == (text::trim(s).len() == 0),
{
    let n = s.len() as int;
    lemma_cut_prefix_blank(s, n);
    let (done, cur) = cut_prefix(s, n);
    text::lemma_trim_empty(cur);
    text::lemma_trim_empty(s);
    assert(s.take(n) =~= s);
}

/// The sentences to speak, one after the other: the sentences of `text`
/// whose trimmed form is not empty, each trimmed.
pub fn speech_segments(text: &str) -> (out: Vec<String>)
    ensures
        string_views(out@) == sentences(text@),
{
    let all = split_sentences(text);
    proof {
        lemma_sentences_trimmed(text@);
    }
    let mut out: Vec<String> = Vec::new();
    let mut i: usize = 0;
    while i < all.len()
        invariant
            0 <= i <= all.len(),
            string_views(all@) == sentences(text@),
            forall|k: int|
                0 <= k < sentences(text@).len() ==> (#[trigger] sentences(text@)[k]).len() > 0
                    && text::trim(sentences(text@)[k]) == sentences(text@)[k],
            string_views(out@) == sentences(text@).take(i as int),
        decreases all.len() - i,
    {
        let chars = text::chars_of(all[i].as_str());
        let trimmed = trim_chars(&chars);
        assert(sentences(text@)[i as int] == all@[i as int]@);
        if trimmed.len() > 0 {
            let ghost before = out@;
            out.push(string_of(&trimmed));
            assert(string_views(out@) =~= string_views(before).push(trimmed@));
        }
        i = i + 1;
        assert(string_views(out@) =~= sentences(text@).take(i as int));
    }
    assert(sentences(text@).take(all.len() as int) =~= sentences(text@));
    out
}

} // verus!
