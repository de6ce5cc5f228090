//! The stored conversations: the most recent first, at most twenty kept.
use vstd::prelude::*;
use crate::text::chars_of;
use crate::keys::same_chars;

verus! {

/// A tool call as shown in a stored conversation.
#[derive(Clone, Debug)]
pub struct ToolCallRecord {
    pub tool: String,
    pub input: String,
    pub output: Option<String>,
    pub status: String,
}

/// A stored conversation.
#[derive(Clone, Debug)]
pub struct ConversationRecord {
    pub id: String,
    pub timestamp: u64,
    pub transcript: String,
    pub response: String,
    pub screenshot_path: Option<String>,
    pub tool_calls: Vec<ToolCallRecord>,
}

/// What a stored tool call says.
pub struct ToolCallView {
    pub tool: Seq<char>,
    pub input: Seq<char>,
    pub output: Option<Seq<char>>,
    pub status: Seq<char>,
}

/// What a stored conversation says.
pub struct ConversationView {
    pub id: Seq<char>,
    pub timestamp: u64,
    pub transcript: Seq<char>,
    pub response: Seq<char>,
    pub screenshot_path: Option<Seq<char>>,
    pub tool_calls: Seq<ToolCallView>,
}

/// The text of an optional string.
pub open spec fn opt_view(o: Option<String>) -> Option<Seq<char>> {
    match o {
        Some(s) => Some(s@),
        None => None,
    }
}

impl View for ToolCallRecord {
    type V = ToolCallView;

    open spec fn view(&self) -> ToolCallView {
        ToolCallView {
            tool: self.tool@,
            input: self.input@,
            output: opt_view(self.output),
            status: self.status@,
        }
    }
}

impl View for ConversationRecord {
    type V = ConversationView;

    open spec fn view(&self) -> ConversationView {
        ConversationView {
            id: self.id@,
            timestamp: self.timestamp,
            transcript: self.transcript@,
            response: self.response@,
            screenshot_path: opt_view(self.screenshot_path),
            tool_calls: self.tool_calls@.map_values(|c: ToolCallRecord| c@),
        }
    }
}

/// The views of stored conversations.
pub open spec fn record_views(v: Seq<ConversationRecord>) -> Seq<ConversationView> {
    v.map_values(|r: ConversationRecord| r@)
}

/// How many conversations are kept.
pub const MAX_CONVERSATIONS: usize = 20;

/// The stored conversations after saving `r`: `r` first, then the ones
/// before, the oldest dropped beyond twenty.
pub open spec fn after_save(records: Seq<ConversationView>, r: ConversationView) -> Seq<
    ConversationView,
> {
    let all = seq![r] + records;
    if all.len() > 20 {
        all.take(20)
    } else {
        all
    }
}

/// The first stored conversation with the id `id`.
pub open spec fn find_by_id(records: Seq<ConversationView>, id: Seq<char>) -> Option<
    ConversationView,
>
    decreases records.len(),
{
    if records.len() == 0 {
        None
    } else if records[0].id == id {
        Some(records[0])
    } else {
        find_by_id(records.drop_first(), id)
    }
}

/// The stored conversations, most recent first.
pub struct HistoryStore {
    records: Vec<ConversationRecord>,
}

impl HistoryStore {
    /// The conversations held, most recent first.
    pub closed spec fn records(&self) -> Seq<ConversationView> {
        record_views(self.records@)
    }

    /// The store holding the conversations read back from disk, as they were.
    pub fn from_records(records: Vec<ConversationRecord>) -> (h: Self)
        ensures
            h.records() == record_views(records@),
    {
        HistoryStore { records }
    }

    /// Saves a conversation as the most recent one, keeping at most twenty.
    pub fn save(&mut self, record: ConversationRecord)
        ensures
            final(self).records() == after_save(old(self).records(), record@),
    {
        let ghost rv = record@;
        self.records.insert(0, record);
        assert(record_views(self.records@) =~= seq![rv] + record_views(old(self).records@));
        if self.records.len() > MAX_CONVERSATIONS {
            let ghost full = self.records@;
            self.records.truncate(MAX_CONVERSATIONS);
            assert(record_views(self.records@) =~= record_views(full).take(20));
        }
    }

    /// All stored conversations, most recent first.
    pub fn all(&self) -> (v: &Vec<ConversationRecord>)
        ensures
            record_views(v@) == self.records(),
    {
        &self.records
    }

    /// The stored conversation with the id `id`, if any.
    pub fn find<'a>(&'a self, id: &str) -> (r: Option<&'a ConversationRecord>)
        ensures
            match r {
                Some(c) => find_by_id(self.records(), id@) == Some(c@),
                None => find_by_id(self.records(), id@) is None,
            },
    {
        let want = chars_of(id);
        let mut i: usize = 0;
        assert(record_views(self.records@).skip(0) =~= record_views(self.records@));
        while i < self.records.len()
            invariant
                0 <= i <= self.records.len(),
                want@ == id@,
                find_by_id(record_views(self.records@), id@) == find_by_id(
                    record_views(self.records@).skip(i as int),
                    id@,
                ),
            decreases self.records.len() - i,
        {
            let ghost rest = record_views(self.records@).skip(i as int);
            assert(rest[0] == self.records@[i as int]@);
            assert(rest.drop_first() =~= record_views(self.records@).skip(i + 1));
            let have = chars_of(self.records[i].id.as_str());
            if same_chars(&have, &want) {
                return Some(&self.records[i]);
            }
            i = i + 1;
        }
        None
    }
}

/// Law: a conversation just saved is the most recent one and is found by
/// its id.
pub proof fn lemma_saved_is_found(records: Seq<ConversationView>, r: ConversationView)
    ensures
        after_save(records, r)[0] == r,
        find_by_id(after_save(records, r), r.id) == Some(r),
        after_save(records, r).len() <= 20,
{
    let all = seq![r] + records;
    assert(all[0] == r);
    if all.len() > 20 {
        assert(all.take(20)[0] == r);
    }
}

/// Law: saving keeps the earlier conversations in order after the new one,
/// dropping only the oldest beyond twenty.
pub proof fn lemma_save_shifts(records: Seq<ConversationView>, r: ConversationView, i: int)
    requires
        0 <= i < records.len(),
        i + 1 < 20,
    ensures
        after_save(records, r)[i + 1] == records[i],
{
}

/// Law: a conversation is found by its id: the first stored conversation
/// with that id is the one found, whatever its place.
pub proof fn lemma_found_by_id(records: Seq<ConversationView>, i: int)
    requires
        0 <= i < records.len(),
        forall|j: int| 0 <= j < i ==> (#[trigger] records[j]).id != records[i].id,
    ensures
        find_by_id(records, records[i].id) == Some(records[i]),
    decreases i,
{
    if i > 0 {
        let rest = records.drop_first();
        assert(records[0].id != records[i].id);
        assert(rest[i - 1] == records[i]);
        assert forall|j: int| 0 <= j < i - 1 implies (#[trigger] rest[j]).id != rest[i - 1].id by {
            assert(rest[j] == records[j + 1]);
        }
        lemma_found_by_id(rest, i - 1);
    }
}

/// Law: nothing is found exactly when no stored conversation has the id,
/// and what is found is a stored conversation with that id.
pub proof fn lemma_find_result(records: Seq<ConversationView>, id: Seq<char>)
    ensures
        (find_by_id(records, id) is None) == (forall|j: int|
            0 <= j < records.len() ==> #[trigger] records[j].id != id),
        find_by_id(records, id) matches Some(r) ==> r.id == id && exists|j: int|
            0 <= j < records.len() && #[trigger] records[j] == r,
    decreases records.len(),
{
    if records.len() > 0 {
        let rest = records.drop_first();
        lemma_find_result(rest, id);
        assert forall|j: int| 0 <= j < rest.len() implies #[trigger] rest[j] == records[j + 1] by {}
        if records[0].id == id {
            assert(records[0] == records[0]);
        } else {
            if forall|j: int| 0 <= j < rest.len() ==> #[trigger] rest[j].id != id {
                assert forall|j: int| 0 <= j < records.len() implies #[trigger] records[j].id != id by {
                    if j > 0 {
                        assert(records[j] == rest[j - 1]);
                    }
                }
            }
            if find_by_id(rest, id) is Some {
                let r = find_by_id(rest, id).unwrap();
                let k = choose|k: int| 0 <= k < rest.len() && #[trigger] rest[k] == r;
                assert(records[k + 1] == r);
            }
        }
    }
}

} // verus!
