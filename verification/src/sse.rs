//! Decoding a streamed chat reply: the reply arrives in chunks of
//! server-sent-event text, whose `data: ` lines carry the payloads, until a
//! `data: [DONE]` line ends it.
use vstd::prelude::*;
use crate::text;
use crate::text::{chars_of, extend_chars, string_of};

verus! {

/// What one line of the stream says. `S` is `String` for decoded events and
/// `Seq<char>` in specifications.
#[derive(Clone, Debug)]
pub enum SseEvent<S> {
    /// The payload of a `data: ` line.
    Data(S),
    /// The `data: [DONE]` line that ends the reply.
    Done,
}

impl View for SseEvent<String> {
    type V = SseEvent<Seq<char>>;

    open spec fn view(&self) -> SseEvent<Seq<char>> {
        match self {
            SseEvent::Data(s) => SseEvent::Data(s@),
            SseEvent::Done => SseEvent::Done,
        }
    }
}

/// A line without its trailing carriage returns.
pub open spec fn trim_cr(line: Seq<char>) -> Seq<char>
    decreases line.len(),
{
    if line.len() > 0 && line.last() == '\r' {
        trim_cr(line.drop_last())
    } else {
        line
    }
}

/// The event of a complete line, if it is a `data: ` line.
pub open spec fn line_event(line: Seq<char>) -> Option<SseEvent<Seq<char>>> {
    let l = trim_cr(line);
    if text::has_prefix(l, "data: "@) {
        let d = l.skip(6);
        if d == "[DONE]"@ {
            Some(SseEvent::Done)
        } else {
            Some(SseEvent::Data(d))
        }
    } else {
        None
    }
}

/// The decoder after reading the text `s` from the start of a reply: whether
/// the end was seen, the events of the complete lines up to and including
/// the end, and the unfinished last line.
pub open spec fn decode_state(s: Seq<char>) -> (bool, Seq<SseEvent<Seq<char>>>, Seq<char>)
    decreases s.len(),
{
    if s.len() == 0 {
        (false, Seq::empty(), Seq::empty())
    } else {
        let (done, events, line) = decode_state(s.drop_last());
        let c = s.last();
        if done {
            (done, events, line)
        } else if c == '\n' {
            match line_event(line) {
                Some(SseEvent::Done) => (true, events.push(SseEvent::Done), Seq::empty()),
                Some(e) => (false, events.push(e), Seq::empty()),
                None => (false, events, Seq::empty()),
            }
        } else {
            (false, events, line.push(c))
        }
    }
}

/// The events of a reply whose text so far is `s`.
pub open spec fn events_of(s: Seq<char>) -> Seq<SseEvent<Seq<char>>> {
    decode_state(s).1
}

/// The views of decoded events.
pub open spec fn event_views(v: Seq<SseEvent<String>>) -> Seq<SseEvent<Seq<char>>> {
    v.map_values(|e: SseEvent<String>| e@)
}

/// Law: reading more text never takes back an event: the events of `a` are
/// the first events of `a + b`.
pub proof fn lemma_events_grow(a: Seq<char>, b: Seq<char>)
    ensures
        events_of(a).len() <= events_of(a + b).len(),
        events_of(a + b).take(events_of(a).len() as int) == events_of(a),
        decode_state(a).0 ==> decode_state(a + b) == decode_state(a),
    decreases b.len(),
{
    if b.len() == 0 {
        assert(a + b =~= a);
    } else {
        lemma_events_grow(a, b.drop_last());
        assert((a + b).drop_last() =~= a + b.drop_last());
        let prev = events_of(a + b.drop_last());
        assert(prev.push(SseEvent::Done).take(prev.len() as int) =~= prev);
        assert forall|e: SseEvent<Seq<char>>| #[trigger] prev.push(e).take(
            events_of(a).len() as int,
        ) =~= prev.take(events_of(a).len() as int) by {}
    }
}

/// Law: how the reply is cut into chunks does not matter: the events
/// returned for `a` followed by those returned for `b` are the events of
/// `a + b` read at once.
pub proof fn lemma_chunking_invariant(a: Seq<char>, b: Seq<char>)
    ensures
        events_of(a) + events_of(a + b).skip(events_of(a).len() as int) == events_of(a + b),
{
    lemma_events_grow(a, b);
    let whole = events_of(a + b);
    let k = events_of(a).len() as int;
    assert(whole.take(k) + whole.skip(k) =~= whole);
}

/// Law: after `data: [DONE]` nothing more is read: further text yields no
/// events.
pub proof fn lemma_nothing_after_done(a: Seq<char>, b: Seq<char>)
    requires
        decode_state(a).0,
    ensures
        events_of(a + b) == events_of(a),
{
    lemma_events_grow(a, b);
}

/// A decoder for one streamed reply.
pub struct SseDecoder {
    line: Vec<char>,
    done: bool,
    read: Ghost<Seq<char>>,
}

impl SseDecoder {
    /// All the text read so far.
    pub closed spec fn text_read(&self) -> Seq<char> {
        self.read@
    }

    /// The decoder's fields are what decoding the text read so far gives.
    #[verifier::type_invariant]
    spec fn consistent(&self) -> bool {
        decode_state(self.read@).0 == self.done && decode_state(self.read@).2 == self.line@
    }

    /// Whether the end of the reply was seen.
    pub open spec fn finished(&self) -> bool {
        decode_state(self.text_read()).0
    }

    /// A decoder at the start of a reply.
    pub fn new() -> (d: Self)
        ensures
            d.text_read() == Seq::<char>::empty(),
    {
        SseDecoder { line: Vec::new(), done: false, read: Ghost(Seq::empty()) }
    }

    /// Whether the end of the reply was seen.
    pub fn is_done(&self) -> (b: bool)
        ensures
            b == self.finished(),
    {
        proof {
            use_type_invariant(self);
        }
        self.done
    }

    /// Reads the next chunk of the reply and returns the events of the lines
    /// it completes, up to and including the end of the reply.
    pub fn feed(&mut self, chunk: &str) -> (events: Vec<SseEvent<String>>)
        ensures
            final(self).text_read() == old(self).text_read() + chunk@,
            event_views(events@) == events_of(old(self).text_read() + chunk@).skip(
                events_of(old(self).text_read()).len() as int,
            ),
    {
        proof {
            use_type_invariant(&*self);
        }
        let chars = chars_of(chunk);
        let ghost start = self.read@;
        let mut line: Vec<char> = Vec::new();
        extend_chars(&mut line, &self.line);
        let mut done = self.done;
        let mut read: Ghost<Seq<char>> = Ghost(start);
        let mut out: Vec<SseEvent<String>> = Vec::new();
        let mut i: usize = 0;
        assert(start + chunk@.take(0) =~= start);
        assert(line@ =~= self.line@);
        while i < chars.len()
            invariant
                0 <= i <= chars.len(),
                chars@ == chunk@,
                read@ == start + chunk@.take(i as int),
                decode_state(read@).0 == done,
                decode_state(read@).2 == line@,
                events_of(start).len() <= events_of(read@).len(),
                event_views(out@) == events_of(read@).skip(events_of(start).len() as int),
            decreases chars.len() - i,
        {
            let c = chars[i];
            let ghost before = read@;
            let ghost old_out = event_views(out@);
            let ghost old_events = events_of(before);
            proof {
                read@ = start + chunk@.take(i + 1);
                assert(read@.drop_last() =~= before);
                assert(read@.last() == c);
            }
            if !done {
                if c == '\n' {
                    let ev = Self::line_to_event(&line);
                    match ev {
                        Some(e) => {
                            let is_end = match &e {
                                SseEvent::Done => true,
                                _ => false,
                            };
                            let ghost ev_view = e@;
                            out.push(e);
                            if is_end {
                                done = true;
                            }
                            assert(event_views(out@) =~= old_out.push(ev_view));
                            assert(old_events.push(ev_view).skip(events_of(start).len() as int)
                                =~= old_events.skip(events_of(start).len() as int).push(ev_view));
                        },
                        None => {},
                    }
                    line = Vec::new();
                    assert(line@ =~= Seq::<char>::empty());
                } else {
                    line.push(c);
                }
            }
            i = i + 1;
        }
        assert(chunk@.take(chars.len() as int) =~= chunk@);
        *self = SseDecoder { line, done, read };
        out
    }

    /// The event of a complete line.
    fn line_to_event(line: &Vec<char>) -> (e: Option<SseEvent<String>>)
        ensures
            match e {
                Some(ev) => line_event(line@) == Some(ev@),
                None => line_event(line@) is None,
            },
    {
        let mut end = line.len();
        assert(line@.take(end as int) =~= line@);
        while end > 0 && line[end - 1] == '\r'
            invariant
                0 <= end <= line.len(),
                trim_cr(line@) == trim_cr(line@.take(end as int)),
            decreases end,
        {
            assert(line@.take(end as int).drop_last() =~= line@.take(end - 1));
            end = end - 1;
        }
        assert(trim_cr(line@.take(end as int)) == line@.take(end as int));
        let prefix = chars_of("data: ");
        proof {
            reveal_strlit("data: ");
        }
        let l = slice_chars(line, 0, end);
        assert(line@.take(end as int) =~= l@);
        if !text::starts_with_chars(&l, &prefix) {
            return None;
        }
        let d = slice_chars(&l, 6, l.len());
        assert(d@ =~= l@.skip(6));
        let done_lit = chars_of("[DONE]");
        if crate::keys::same_chars(&d, &done_lit) {
            Some(SseEvent::Done)
        } else {
            Some(SseEvent::Data(string_of(&d)))
        }
    }
}

/// The characters of `v` from `from` up to `to`.
pub fn slice_chars(v: &[char], from: usize, to: usize) -> (s: Vec<char>)
    requires
        from <= to <= v@.len(),
    ensures
        s@ == v@.subrange(from as int, to as int),
{
    let mut s: Vec<char> = Vec::new();
    let mut k = from;
    while k < to
        invariant
            from <= k <= to <= v@.len(),
            s@ == v@.subrange(from as int, k as int),
        decreases to - k,
    {
        s.push(v[k]);
        k = k + 1;
        assert(s@ =~= v@.subrange(from as int, k as int));
    }
    s
}

/// One step into a JSON value: a member of an object by its key, or an
/// element of an array by its position.
#[derive(Debug)]
pub enum JsonStep {
    Key(String),
    Index(usize),
}

/// What a step says.
pub enum StepView {
    Key(Seq<char>),
    Index(usize),
}

impl View for JsonStep {
    type V = StepView;

    open spec fn view(&self) -> StepView {
        match self {
            JsonStep::Key(k) => StepView::Key(k@),
            JsonStep::Index(i) => StepView::Index(*i),
        }
    }
}

/// The views of steps.
pub open spec fn step_views(v: Seq<JsonStep>) -> Seq<StepView> {
    Seq::new(v.len(), |i: int| v[i]@)
}

/// The string reached from the JSON written in `text` by following `path`,
/// when `text` is JSON and every step leads somewhere and ends at a string.
pub uninterp spec fn json_string_at(text: Seq<char>, path: Seq<StepView>) -> Option<Seq<char>>;

/// `serde_json::from_str` into a JSON value, then `Index` for each step of
/// the path and `as_str` at its end. Claimed: what comes back is that string
/// (named, not described: what serde_json takes as JSON is left to it).
#[verifier::external_body]
fn string_at(text: &str, path: &Vec<JsonStep>) -> (c: Option<String>)
    ensures
        match c {
            Some(s) => json_string_at(text@, step_views(path@)) == Some(s@),
            None => json_string_at(text@, step_views(path@)) is None,
        },
{
    let parsed: serde_json::Value = serde_json::from_str(text).ok()?;
    let mut v = &parsed;
    for step in path {
        v = match step {
            JsonStep::Key(k) => &v[k.as_str()],
            JsonStep::Index(i) => &v[*i],
        };
    }
    v.as_str().map(|s| s.to_string())
}

/// Where a streamed completion chunk holds the text of its first choice's
/// delta: `choices[0].delta.content`.
pub open spec fn delta_path() -> Seq<StepView> {
    seq![
        StepView::Key("choices"@),
        StepView::Index(0),
        StepView::Key("delta"@),
        StepView::Key("content"@),
    ]
}

/// The text of the first choice's delta in a streamed completion chunk.
fn delta_content(data: &str) -> (c: Option<String>)
    ensures
        match c {
            Some(s) => json_string_at(data@, delta_path()) == Some(s@),
            None => json_string_at(data@, delta_path()) is None,
        },
{
    let mut path: Vec<JsonStep> = Vec::new();
    path.push(JsonStep::Key(string_of(&chars_of("choices"))));
    path.push(JsonStep::Index(0));
    path.push(JsonStep::Key(string_of(&chars_of("delta"))));
    path.push(JsonStep::Key(string_of(&chars_of("content"))));
    assert(step_views(path@) =~= delta_path());
    string_at(data, &path)
}

/// The token shown for a streamed delta text: the text when it is not
/// empty; nothing for an empty text or a missing one.
pub open spec fn shown_token(delta: Option<Seq<char>>) -> Option<Seq<char>> {
    match delta {
        Some(t) => if t.len() > 0 {
            Some(t)
        } else {
            None
        },
        None => None,
    }
}

/// The token to show for the delta text of a streamed chunk.
pub fn token_of_delta(delta: Option<String>) -> (t: Option<String>)
    ensures
        match t {
            Some(s) => shown_token(
                match delta {
                    Some(d) => Some(d@),
                    None => None,
                },
            ) == Some(s@),
            None => shown_token(
                match delta {
                    Some(d) => Some(d@),
                    None => None,
                },
            ) is None,
        },
{
    match delta {
        Some(d) => if chars_of(d.as_str()).len() > 0 {
            Some(d)
        } else {
            None
        },
        None => None,
    }
}

/// The token a streamed payload carries, to be shown as it arrives: the
/// text of its first choice's delta, when that is a non-empty string.
pub fn stream_token(data: &str) -> (t: Option<String>)
    ensures
        match t {
            Some(s) => shown_token(json_string_at(data@, delta_path())) == Some(s@),
            None => shown_token(json_string_at(data@, delta_path())) is None,
        },
{
    token_of_delta(delta_content(data))
}

} // verus!
