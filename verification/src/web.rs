//! The web tools' replies: search hits listed for the model, and fetched
//! pages cut to a size the model can take.
use vstd::prelude::*;
use vstd::utf8::{decode_utf8, encode_utf8, is_char_boundary};
use crate::text;
use crate::text::{chars_of, decimal_chars, extend_chars, push_str, string_of};
use crate::html::strip_html_tags;

verus! {

/// One web search hit, with the fields the reply reads (each missing when
/// the search service left it out or sent no string).
#[derive(Clone, Debug)]
pub struct SearchHit {
    pub title: Option<String>,
    pub url: Option<String>,
    pub description: Option<String>,
}

/// The text of an optional string, or `default` when it is missing.
pub open spec fn text_or(o: Option<String>, default: Seq<char>) -> Seq<char> {
    match o {
        Some(s) => s@,
        None => default,
    }
}

/// How the hit at position `i` (from 0) is listed: its number from 1, its
/// title and URL, and its description on an indented second line.
pub open spec fn hit_entry(i: int, h: SearchHit) -> Seq<char> {
    text::decimal((i + 1) as nat) + ". "@ + text_or(h.title, "(no title)"@) + " ("@ + text_or(
        h.url,
        Seq::empty(),
    ) + ")\n   "@ + text_or(h.description, Seq::empty())
}

/// The reply to a search: the hits separated by blank lines, or
/// `No results found.` when the service sent no list of hits or an empty one.
pub open spec fn search_summary(hits: Option<Seq<SearchHit>>) -> Seq<char> {
    match hits {
        Some(h) => {
            let joined = text::join(Seq::new(h.len(), |i: int| hit_entry(i, h[i])), "\n\n"@);
            if joined.len() > 0 {
                joined
            } else {
                "No results found."@
            }
        },
        None => "No results found."@,
    }
}

fn hit_entry_chars(i: usize, h: &SearchHit) -> (v: Vec<char>)
    requires
        i < usize::MAX,
    ensures
        v@ == hit_entry(i as int, *h),
{
    let mut v = decimal_chars((i + 1) as u64);
    push_str(&mut v, ". ");
    match &h.title {
        Some(t) => push_str(&mut v, t.as_str()),
        None => push_str(&mut v, "(no title)"),
    }
    push_str(&mut v, " (");
    match &h.url {
        Some(u) => push_str(&mut v, u.as_str()),
        None => {},
    }
    push_str(&mut v, ")\n   ");
    match &h.description {
        Some(d) => push_str(&mut v, d.as_str()),
        None => {},
    }
    v
}

/// The reply to a web search, from the hits the service sent (`None` when
/// its answer held no list of hits).
pub fn search_results_text(hits: &Option<Vec<SearchHit>>) -> (s: String)
    ensures
        s@ == search_summary(
            match hits {
                Some(h) => Some(h@),
                None => None,
            },
        ),
{
    match hits {
        None => string_of(&chars_of("No results found.")),
        Some(h) => {
            let ghost entries = Seq::new(h@.len(), |i: int| hit_entry(i, h@[i]));
            let mut out: Vec<char> = Vec::new();
            let mut i: usize = 0;
            while i < h.len()
                invariant
                    0 <= i <= h.len(),
                    entries == Seq::new(h@.len(), |i: int| hit_entry(i, h@[i])),
                    out@ == text::join(entries.take(i as int), "\n\n"@),
                decreases h.len() - i,
            {
                assert(entries.take(i + 1).drop_last() =~= entries.take(i as int));
                assert(entries.take(i + 1).last() == hit_entry(i as int, h@[i as int]));
                if i > 0 {
                    push_str(&mut out, "\n\n");
                } else {
                    assert(entries.take(1) =~= seq![entries[0]]);
                }
                let e = hit_entry_chars(i, &h[i]);
                extend_chars(&mut out, &e);
                i = i + 1;
            }
            assert(entries.take(h.len() as int) =~= entries);
            if out.len() > 0 {
                string_of(&out)
            } else {
                string_of(&chars_of("No results found."))
            }
        },
    }
}

/// Whether a text can be cut after `n` bytes: it is no longer than that, or
/// byte `n` starts a character.
pub open spec fn cut_allowed(t: Seq<char>, n: int) -> bool {
    encode_utf8(t).len() <= n || is_char_boundary(encode_utf8(t), n)
}

/// The first `n` bytes of a text, as characters.
pub open spec fn first_bytes(t: Seq<char>, n: int) -> Seq<char> {
    decode_utf8(encode_utf8(t).take(n))
}

/// A fetched page's text as given to the model: at most its first 3000
/// characters, followed by a note with the number of characters left out.
pub open spec fn page_excerpt(t: Seq<char>) -> Seq<char> {
    if t.len() > 3000 {
        t.take(3000) + "... [truncated — "@ + text::decimal((t.len() - 3000) as nat)
            + " chars remaining]"@
    } else {
        t
    }
}

/// A message shortened for display: at most its first 40 bytes, followed by
/// an ellipsis when something was left out.
pub open spec fn preview(t: Seq<char>) -> Seq<char> {
    if encode_utf8(t).len() > 40 {
        first_bytes(t, 40) + "…"@
    } else {
        t
    }
}

/// The first `n` bytes of `s`, cut at a character boundary.
fn head_bytes(s: &str, n: usize) -> (h: Vec<char>)
    requires
        n <= encode_utf8(s@).len(),
        is_char_boundary(encode_utf8(s@), n as int),
    ensures
        h@ == first_bytes(s@, n as int),
{
    let (head, _tail) = s.split_at(n);
    let h = chars_of(head);
    proof {
        vstd::utf8::encode_utf8_decode_utf8(head@);
        assert(encode_utf8(s@).subrange(0, n as int) =~= encode_utf8(s@).take(n as int));
    }
    h
}

/// Cuts a page's text to 3000 characters and notes how many characters were
/// left out.
pub fn page_excerpt_of(text: &str) -> (e: String)
    ensures
        e@ == page_excerpt(text@),
{
    let cs = chars_of(text);
    let n = cs.len();
    if n > 3000 {
        let mut v: Vec<char> = Vec::new();
        let mut i: usize = 0;
        while i < 3000
            invariant
                i <= 3000 < n == cs@.len(),
                v@ == cs@.take(i as int),
            decreases 3000 - i,
        {
            v.push(cs[i]);
            i = i + 1;
            assert(v@ =~= cs@.take(i as int));
        }
        push_str(&mut v, "... [truncated — ");
        let rest = decimal_chars((n - 3000) as u64);
        extend_chars(&mut v, &rest);
        push_str(&mut v, " chars remaining]");
        string_of(&v)
    } else {
        string_of(&cs)
    }
}

/// The reply of `web_fetch` for a page: its text, cut to 3000 characters.
pub fn fetched_page_text(html: &str) -> (e: String)
    ensures
        e@ == page_excerpt(crate::html::page_text(html@)),
{
    let t = strip_html_tags(html);
    page_excerpt_of(t.as_str())
}

/// How typed text is shown while it is typed: its first 40 bytes and an
/// ellipsis when it is longer.
pub fn typing_preview(text: &str) -> (p: String)
    requires
        cut_allowed(text@, 40),
    ensures
        p@ == preview(text@),
{
    if text.as_bytes().len() > 40 {
        let mut v = head_bytes(text, 40);
        push_str(&mut v, "…");
        string_of(&v)
    } else {
        string_of(&chars_of(text))
    }
}

/// Law: a text cut after `n` bytes keeps exactly its first `n` bytes, and
/// they are the start of the text: the typing preview shows a prefix of the
/// typed text.
pub proof fn lemma_cut_is_prefix(t: Seq<char>, n: int)
    requires
        0 <= n <= encode_utf8(t).len(),
        is_char_boundary(encode_utf8(t), n),
    ensures
        encode_utf8(first_bytes(t, n)).len() == n,
        t.take(first_bytes(t, n).len() as int) == first_bytes(t, n),
{
    let b = encode_utf8(t);
    vstd::utf8::encode_utf8_valid_utf8(t);
    vstd::utf8::valid_utf8_split(b, n);
    vstd::utf8::decode_utf8_split(b, n);
    vstd::utf8::encode_utf8_decode_utf8(t);
    assert(b.subrange(0, n) =~= b.take(n));
    vstd::utf8::decode_utf8_encode_utf8(b.take(n));
    let head = first_bytes(t, n);
    let rest = decode_utf8(b.subrange(n, b.len() as int));
    assert(t =~= head + rest);
    assert(t.take(head.len() as int) =~= head);
}

} // verus!
