//! Plain text out of an HTML page: tags and the bodies of `script` and
//! `style` elements dropped, the common entities decoded and white space
//! collapsed to single spaces.
use vstd::prelude::*;
use crate::text;
use crate::text::{
    ascii_lower_chars, chars_of, collapse_spaces_chars, replace_chars, starts_with_chars, string_of,
    trim_chars,
};

verus! {

/// The state of the tag scanner after a prefix of the page.
pub struct TagScan {
    /// Inside `<...>`.
    pub in_tag: bool,
    /// Inside a `script` or `style` element.
    pub in_script: bool,
    /// The characters of the tag read so far.
    pub tag: Seq<char>,
    /// The text emitted so far.
    pub out: Seq<char>,
}

pub open spec fn lit_script() -> Seq<char> {
    seq!['s', 'c', 'r', 'i', 'p', 't']
}

pub open spec fn lit_style() -> Seq<char> {
    seq!['s', 't', 'y', 'l', 'e']
}

pub open spec fn lit_end_script() -> Seq<char> {
    seq!['/', 's', 'c', 'r', 'i', 'p', 't']
}

pub open spec fn lit_end_style() -> Seq<char> {
    seq!['/', 's', 't', 'y', 'l', 'e']
}

/// The scanner state when the tag in `st.tag` is closed by `>`: a tag whose
/// lower-cased, trimmed text starts with `script` or `style` opens a skipped
/// element, one starting with `/script` or `/style` closes it, and a space
/// is emitted unless the scanner is then inside a skipped element.
pub open spec fn close_tag(st: TagScan) -> TagScan {
    let lower = text::trim(text::ascii_lower_seq(st.tag));
    let in_script = if text::has_prefix(lower, lit_script()) || text::has_prefix(lower, lit_style()) {
        true
    } else if text::has_prefix(lower, lit_end_script()) || text::has_prefix(lower, lit_end_style()) {
        false
    } else {
        st.in_script
    };
    TagScan {
        in_tag: false,
        in_script,
        tag: Seq::empty(),
        out: if in_script {
            st.out
        } else {
            st.out.push(' ')
        },
    }
}

/// One character of the page read by the scanner.
pub open spec fn scan_step(st: TagScan, c: char) -> TagScan {
    if st.in_tag {
        if c == '>' {
            close_tag(st)
        } else {
            TagScan { in_tag: true, in_script: st.in_script, tag: st.tag.push(c), out: st.out }
        }
    } else if c == '<' {
        TagScan { in_tag: true, in_script: st.in_script, tag: Seq::empty(), out: st.out }
    } else if !st.in_script {
        TagScan { in_tag: false, in_script: false, tag: st.tag, out: st.out.push(c) }
    } else {
        st
    }
}

/// The scanner state after reading all of `s` from the start of a page.
pub open spec fn scan_tags(s: Seq<char>) -> TagScan
    decreases s.len(),
{
    if s.len() == 0 {
        TagScan { in_tag: false, in_script: false, tag: Seq::empty(), out: Seq::empty() }
    } else {
        scan_step(scan_tags(s.drop_last()), s.last())
    }
}

pub open spec fn lit_amp() -> Seq<char> {
    seq!['&', 'a', 'm', 'p', ';']
}

pub open spec fn lit_lt() -> Seq<char> {
    seq!['&', 'l', 't', ';']
}

pub open spec fn lit_gt() -> Seq<char> {
    seq!['&', 'g', 't', ';']
}

pub open spec fn lit_nbsp() -> Seq<char> {
    seq!['&', 'n', 'b', 's', 'p', ';']
}

pub open spec fn lit_apos() -> Seq<char> {
    seq!['&', '#', '3', '9', ';']
}

pub open spec fn lit_quot() -> Seq<char> {
    seq!['&', 'q', 'u', 'o', 't', ';']
}

/// The six entities decoded one after the other, in this order:
/// `&amp;`, `&lt;`, `&gt;`, `&nbsp;`, `&#39;`, `&quot;`.
pub open spec fn decode_entities(s: Seq<char>) -> Seq<char> {
    let a = text::replace_all(s, lit_amp(), seq!['&']);
    let b = text::replace_all(a, lit_lt(), seq!['<']);
    let c = text::replace_all(b, lit_gt(), seq!['>']);
    let d = text::replace_all(c, lit_nbsp(), seq![' ']);
    let e = text::replace_all(d, lit_apos(), seq!['\'']);
    text::replace_all(e, lit_quot(), seq!['"'])
}

/// The text of an HTML page, as the library extracts it.
pub open spec fn page_text(html: Seq<char>) -> Seq<char> {
    text::collapse_spaces(decode_entities(scan_tags(html).out))
}

fn tag_opens_skip(lower: &Vec<char>) -> (b: bool)
    ensures
        b == (text::has_prefix(lower@, lit_script()) || text::has_prefix(lower@, lit_style())),
{
    let script = vec!['s', 'c', 'r', 'i', 'p', 't'];
    let style = vec!['s', 't', 'y', 'l', 'e'];
    assert(script@ =~= lit_script());
    assert(style@ =~= lit_style());
    starts_with_chars(lower, &script) || starts_with_chars(lower, &style)
}

fn tag_closes_skip(lower: &Vec<char>) -> (b: bool)
    ensures
        b == (text::has_prefix(lower@, lit_end_script()) || text::has_prefix(lower@, lit_end_style())),
{
    let script = vec!['/', 's', 'c', 'r', 'i', 'p', 't'];
    let style = vec!['/', 's', 't', 'y', 'l', 'e'];
    assert(script@ =~= lit_end_script());
    assert(style@ =~= lit_end_style());
    starts_with_chars(lower, &script) || starts_with_chars(lower, &style)
}

/// Decodes the six entities of [`decode_entities`].
pub fn decode_entities_chars(s: &[char]) -> (t: Vec<char>)
    ensures
        t@ == decode_entities(s@),
{
    let amp = vec!['&', 'a', 'm', 'p', ';'];
    let lt = vec!['&', 'l', 't', ';'];
    let gt = vec!['&', 'g', 't', ';'];
    let nbsp = vec!['&', 'n', 'b', 's', 'p', ';'];
    let apos = vec!['&', '#', '3', '9', ';'];
    let quot = vec!['&', 'q', 'u', 'o', 't', ';'];
    assert(amp@ =~= lit_amp());
    assert(lt@ =~= lit_lt());
    assert(gt@ =~= lit_gt());
    assert(nbsp@ =~= lit_nbsp());
    assert(apos@ =~= lit_apos());
    assert(quot@ =~= lit_quot());
    let r_amp = vec!['&'];
    let r_lt = vec!['<'];
    let r_gt = vec!['>'];
    let r_nbsp = vec![' '];
    let r_apos = vec!['\''];
    let r_quot = vec!['"'];
    assert(r_amp@ =~= seq!['&']);
    assert(r_lt@ =~= seq!['<']);
    assert(r_gt@ =~= seq!['>']);
    assert(r_nbsp@ =~= seq![' ']);
    assert(r_apos@ =~= seq!['\'']);
    assert(r_quot@ =~= seq!['"']);
    let a = replace_chars(s, &amp, &r_amp);
    let b = replace_chars(&a, &lt, &r_lt);
    let c = replace_chars(&b, &gt, &r_gt);
    let d = replace_chars(&c, &nbsp, &r_nbsp);
    let e = replace_chars(&d, &apos, &r_apos);
    replace_chars(&e, &quot, &r_quot)
}

/// The readable text of an HTML page: tags removed (each closed tag outside a
/// `script` or `style` element leaves a space), the contents of `script` and
/// `style` elements dropped, entities decoded, and white space collapsed so
/// that words are separated by single spaces.
pub fn strip_html_tags(html: &str) -> (text: String)
    ensures
        text@ == page_text(html@),
{
    let chars = chars_of(html);
    let mut out: Vec<char> = Vec::new();
    let mut in_tag = false;
    let mut in_script = false;
    let mut tag_buf: Vec<char> = Vec::new();
    let mut i: usize = 0;
    while i < chars.len()
        invariant
            0 <= i <= chars.len(),
            chars@ == html@,
            scan_tags(chars@.take(i as int)) == (TagScan {
                in_tag,
                in_script,
                tag: tag_buf@,
                out: out@,
            }),
        decreases chars.len() - i,
    {
        let ch = chars[i];
        let ghost before = TagScan { in_tag, in_script, tag: tag_buf@, out: out@ };
        assert(chars@.take(i + 1).drop_last() =~= chars@.take(i as int));
        if in_tag {
            if ch == '>' {
                let lower_all = ascii_lower_chars(&tag_buf);
                let lower = trim_chars(&lower_all);
                if tag_opens_skip(&lower) {
                    in_script = true;
                } else if tag_closes_skip(&lower) {
                    in_script = false;
                }
                tag_buf = Vec::new();
                in_tag = false;
                if !in_script {
                    out.push(' ');
                }
                assert(tag_buf@ =~= Seq::<char>::empty());
            } else {
                tag_buf.push(ch);
            }
        } else if ch == '<' {
            in_tag = true;
            tag_buf = Vec::new();
            assert(tag_buf@ =~= Seq::<char>::empty());
        } else if !in_script {
            out.push(ch);
        }
        i = i + 1;
        assert(scan_tags(chars@.take(i as int)) == scan_step(before, ch));
    }
    assert(chars@.take(chars.len() as int) =~= chars@);
    let decoded = decode_entities_chars(&out);
    let collapsed = collapse_spaces_chars(&decoded);
    string_of(&collapsed)
}

/// Law: the text of a page has no white space at either end, and none but
/// single spaces between words.
pub proof fn lemma_page_text_collapsed(html: Seq<char>)
    ensures
        text::is_collapsed(page_text(html)),
        page_text(html).len() > 0 ==> !text::is_space(page_text(html)[0]) && !text::is_space(
            page_text(html).last(),
        ),
{
    text::lemma_collapsed(decode_entities(scan_tags(html).out));
}

/// The scanner state after reading `y` from the state `st`.
pub open spec fn scan_from(st: TagScan, y: Seq<char>) -> TagScan
    decreases y.len(),
{
    if y.len() == 0 {
        st
    } else {
        scan_step(scan_from(st, y.drop_last()), y.last())
    }
}

/// Reading `x` and then `y` leaves the scanner where reading `y` from the
/// state after `x` does.
proof fn lemma_scan_concat(x: Seq<char>, y: Seq<char>)
    ensures
        scan_tags(x + y) == scan_from(scan_tags(x), y),
    decreases y.len(),
{
    if y.len() == 0 {
        assert(x + y =~= x);
    } else {
        lemma_scan_concat(x, y.drop_last());
        assert((x + y).drop_last() =~= x + y.drop_last());
        assert((x + y).last() == y.last());
    }
}

proof fn lemma_scan_from_concat(st: TagScan, x: Seq<char>, y: Seq<char>)
    ensures
        scan_from(st, x + y) == scan_from(scan_from(st, x), y),
    decreases y.len(),
{
    if y.len() == 0 {
        assert(x + y =~= x);
    } else {
        lemma_scan_from_concat(st, x, y.drop_last());
        assert((x + y).drop_last() =~= x + y.drop_last());
        assert((x + y).last() == y.last());
    }
}

/// Text without `<` read outside a tag is copied to the output, or skipped
/// inside a `script` or `style` element.
proof fn lemma_scan_plain(st: TagScan, y: Seq<char>)
    requires
        !st.in_tag,
        text::lacks(y, '<'),
    ensures
        scan_from(st, y) == (TagScan {
            in_tag: false,
            in_script: st.in_script,
            tag: st.tag,
            out: if st.in_script {
                st.out
            } else {
                st.out + y
            },
        }),
    decreases y.len(),
{
    if y.len() == 0 {
        assert(st.out + y =~= st.out);
    } else {
        let z = y.drop_last();
        assert forall|i: int| 0 <= i < z.len() implies z[i] != '<' by {
            assert(z[i] == y[i]);
        }
        lemma_scan_plain(st, z);
        assert(y.last() == y[y.len() - 1]);
        assert((st.out + z).push(y.last()) =~= st.out + y);
    }
}

/// The text of a tag read inside it is added to the tag.
proof fn lemma_scan_in_tag(st: TagScan, t: Seq<char>)
    requires
        st.in_tag,
        text::lacks(t, '>'),
    ensures
        scan_from(st, t) == (TagScan {
            in_tag: true,
            in_script: st.in_script,
            tag: st.tag + t,
            out: st.out,
        }),
    decreases t.len(),
{
    if t.len() == 0 {
        assert(st.tag + t =~= st.tag);
    } else {
        let z = t.drop_last();
        assert forall|i: int| 0 <= i < z.len() implies z[i] != '>' by {
            assert(z[i] == t[i]);
        }
        lemma_scan_in_tag(st, z);
        assert(t.last() == t[t.len() - 1]);
        assert((st.tag + z).push(t.last()) =~= st.tag + t);
    }
}

/// A whole tag `<t>` read outside a tag closes with `t` as its text.
proof fn lemma_scan_tag(st: TagScan, t: Seq<char>)
    requires
        !st.in_tag,
        text::lacks(t, '>'),
    ensures
        scan_from(st, seq!['<'] + t + seq!['>']) == close_tag(
            TagScan { in_tag: true, in_script: st.in_script, tag: t, out: st.out },
        ),
{
    let open = TagScan { in_tag: true, in_script: st.in_script, tag: Seq::empty(), out: st.out };
    assert(scan_from(st, seq!['<']) == scan_step(scan_from(st, Seq::empty()), '<')) by {
        assert(seq!['<'].drop_last() =~= Seq::<char>::empty());
    }
    lemma_scan_in_tag(open, t);
    assert(Seq::<char>::empty() + t =~= t);
    lemma_scan_from_concat(st, seq!['<'], t);
    lemma_scan_from_concat(st, seq!['<'] + t, seq!['>']);
    let mid = scan_from(st, seq!['<'] + t);
    assert(scan_from(mid, seq!['>']) == scan_step(scan_from(mid, Seq::empty()), '>')) by {
        assert(seq!['>'].drop_last() =~= Seq::<char>::empty());
    }
}

/// A tag written without capitals or surrounding white space is read as it
/// is written.
proof fn lemma_plain_tag_name(t: Seq<char>)
    requires
        t.len() > 0,
        forall|i: int| 0 <= i < t.len() ==> 'a' <= #[trigger] t[i] <= 'z' || t[i] == '/',
    ensures
        text::trim(text::ascii_lower_seq(t)) == t,
{
    assert(text::ascii_lower_seq(t) =~= t);
    assert(!text::is_space(t[0]));
    assert(!text::is_space(t.last())) by {
        assert(t.last() == t[t.len() - 1]);
    }
}

/// The state after reading `<name>`, the text `s` without `<`, and
/// `</name>`, for a skipped element `name`, from outside any tag and element.
proof fn lemma_scan_skipped_element(st: TagScan, name: Seq<char>, end: Seq<char>, s: Seq<char>)
    requires
        !st.in_tag,
        !st.in_script,
        text::lacks(s, '<'),
        (name == lit_script() && end == lit_end_script()) || (name == lit_style() && end
            == lit_end_style()),
    ensures
        scan_from(st, seq!['<'] + name + seq!['>'] + s + (seq!['<'] + end + seq!['>']))
            == (TagScan { in_tag: false, in_script: false, tag: Seq::empty(), out: st.out.push(' ') }),
{
    let open_tag = seq!['<'] + name + seq!['>'];
    let close = seq!['<'] + end + seq!['>'];
    assert(text::lacks(name, '>'));
    assert(text::lacks(end, '>'));
    lemma_scan_tag(st, name);
    lemma_plain_tag_name(name);
    assert(text::has_prefix(name, name)) by {
        assert(name.take(name.len() as int) =~= name);
    }
    let st1 = scan_from(st, open_tag);
    assert(st1 == (TagScan { in_tag: false, in_script: true, tag: Seq::empty(), out: st.out }));
    lemma_scan_plain(st1, s);
    let st2 = scan_from(st1, s);
    lemma_scan_tag(st2, end);
    lemma_plain_tag_name(end);
    assert(text::has_prefix(end, end)) by {
        assert(end.take(end.len() as int) =~= end);
    }
    assert(!text::has_prefix(end, lit_script())) by {
        if lit_script().len() <= end.len() {
            assert(end.take(lit_script().len() as int)[0] != lit_script()[0]);
        }
    }
    assert(!text::has_prefix(end, lit_style())) by {
        if lit_style().len() <= end.len() {
            assert(end.take(lit_style().len() as int)[0] != lit_style()[0]);
        }
    }
    lemma_scan_from_concat(st, open_tag, s);
    lemma_scan_from_concat(st, open_tag + s, close);
}

/// Law: a `script` or `style` element between two texts without tags acts as
/// one separator: the page reads as the two texts with a space between them,
/// whatever the element holds (short of a `<`).
pub proof fn lemma_skipped_element_is_separator(p: Seq<char>, s: Seq<char>, q: Seq<char>)
    requires
        text::lacks(p, '<'),
        text::lacks(s, '<'),
        text::lacks(q, '<'),
    ensures
        page_text(p + "<script>"@ + s + "</script>"@ + q) == page_text(p + " "@ + q),
        page_text(p + "<style>"@ + s + "</style>"@ + q) == page_text(p + " "@ + q),
{
    reveal_strlit("<script>");
    reveal_strlit("</script>");
    reveal_strlit("<style>");
    reveal_strlit("</style>");
    reveal_strlit(" ");
    let init = TagScan { in_tag: false, in_script: false, tag: Seq::empty(), out: Seq::empty() };
    let st_p = TagScan { in_tag: false, in_script: false, tag: Seq::empty(), out: p };
    lemma_scan_concat(Seq::empty(), p);
    assert(Seq::<char>::empty() + p =~= p);
    lemma_scan_plain(init, p);
    assert(Seq::<char>::empty() + p =~= p);
    assert(scan_tags(p) == st_p);
    // The page with the separator.
    lemma_scan_concat(p + " "@, q);
    lemma_scan_concat(p, " "@);
    assert(" "@ =~= seq![' ']);
    lemma_scan_plain(st_p, seq![' ']);
    let st_sp = TagScan { in_tag: false, in_script: false, tag: Seq::empty(), out: p.push(' ') };
    assert(p + seq![' '] =~= p.push(' '));
    lemma_scan_plain(st_sp, q);
    let plain = p + " "@ + q;
    assert(scan_tags(plain).out =~= p.push(' ') + q);
    // The page with the element, for each kind of element.
    assert("<script>"@ =~= seq!['<'] + lit_script() + seq!['>']);
    assert("</script>"@ =~= seq!['<'] + lit_end_script() + seq!['>']);
    assert("<style>"@ =~= seq!['<'] + lit_style() + seq!['>']);
    assert("</style>"@ =~= seq!['<'] + lit_end_style() + seq!['>']);
    lemma_scan_skipped_element(st_p, lit_script(), lit_end_script(), s);
    lemma_scan_skipped_element(st_p, lit_style(), lit_end_style(), s);
    let x1 = p + "<script>"@ + s + "</script>"@;
    lemma_scan_concat(x1, q);
    lemma_scan_concat(p, "<script>"@ + s + "</script>"@);
    assert(x1 =~= p + ("<script>"@ + s + "</script>"@));
    lemma_scan_plain(st_sp, q);
    let x2 = p + "<style>"@ + s + "</style>"@;
    lemma_scan_concat(x2, q);
    lemma_scan_concat(p, "<style>"@ + s + "</style>"@);
    assert(x2 =~= p + ("<style>"@ + s + "</style>"@));
}

/// The scanner only writes characters of the page and spaces, and never `<`.
proof fn lemma_scan_out_lacks(s: Seq<char>, c: char)
    requires
        c != ' ',
        c == '<' || text::lacks(s, c),
    ensures
        text::lacks(scan_tags(s).out, c),
    decreases s.len(),
{
    if s.len() > 0 {
        let t = s.drop_last();
        if c != '<' {
            assert forall|i: int| 0 <= i < t.len() implies t[i] != c by {
                assert(t[i] == s[i]);
            }
        }
        lemma_scan_out_lacks(t, c);
        assert(s.last() == s[s.len() - 1]);
        let st = scan_tags(t);
        let out2 = scan_tags(s).out;
        assert forall|i: int| 0 <= i < out2.len() implies out2[i] != c by {
            if i < st.out.len() {
                assert(out2[i] == st.out[i]);
            }
        }
    }
}

/// Entities are only decoded where a `&` is.
proof fn lemma_decode_plain(s: Seq<char>)
    requires
        text::lacks(s, '&'),
    ensures
        decode_entities(s) == s,
{
    text::lemma_replace_absent(s, lit_amp(), seq!['&']);
    text::lemma_replace_absent(s, lit_lt(), seq!['<']);
    text::lemma_replace_absent(s, lit_gt(), seq!['>']);
    text::lemma_replace_absent(s, lit_nbsp(), seq![' ']);
    text::lemma_replace_absent(s, lit_apos(), seq!['\'']);
    text::lemma_replace_absent(s, lit_quot(), seq!['"']);
}

/// Law: on a page without `&`, the text of the page's text is the page's
/// text: it holds no tag, no entity and no white space left to collapse.
pub proof fn lemma_page_text_idempotent(html: Seq<char>)
    requires
        text::lacks(html, '&'),
    ensures
        page_text(page_text(html)) == page_text(html),
{
    let out = scan_tags(html).out;
    lemma_scan_out_lacks(html, '<');
    lemma_scan_out_lacks(html, '&');
    lemma_decode_plain(out);
    let t = page_text(html);
    assert(t == text::collapse_spaces(out));
    text::lemma_collapse_lacks(out, '<');
    text::lemma_collapse_lacks(out, '&');
    let init = TagScan { in_tag: false, in_script: false, tag: Seq::empty(), out: Seq::empty() };
    lemma_scan_concat(Seq::empty(), t);
    assert(Seq::<char>::empty() + t =~= t);
    lemma_scan_plain(init, t);
    assert(Seq::<char>::empty() + t =~= t);
    lemma_decode_plain(t);
    text::lemma_collapse_idempotent(out);
}

} // verus!
