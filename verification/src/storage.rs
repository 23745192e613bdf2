//! History log: the model of the durable clipboard store. Entries are kept
//! oldest first; ids are assigned by the log and grow monotonically, so the
//! most recently inserted entry is the last one. `insert_if_not_duplicate`
//! performs the at-rest deduplication: a content equal to the most recently
//! stored one is discarded without a write.

use vstd::prelude::*;

use crate::classify::ContentType;

verus! {

/// What a stored entry is: its id, content, write timestamp and tag.
pub struct EntryModel {
    pub id: int,
    pub content: Seq<char>,
    pub timestamp: Seq<char>,
    pub content_type: ContentType,
}

/// A persisted clipboard entry.
pub struct ClipboardEntry {
    pub id: i64,
    pub content: String,
    pub timestamp: String,
    pub content_type: ContentType,
}

impl View for ClipboardEntry {
    type V = EntryModel;

    open spec fn view(&self) -> EntryModel {
        EntryModel {
            id: self.id as int,
            content: self.content@,
            timestamp: self.timestamp@,
            content_type: self.content_type,
        }
    }
}

pub open spec fn views_of(entries: Seq<ClipboardEntry>) -> Seq<EntryModel> {
    entries.map_values(|e: ClipboardEntry| e@)
}

/// `log` with every entry of the given id removed, order kept.
pub open spec fn remove_id(log: Seq<EntryModel>, id: int) -> Seq<EntryModel>
    decreases log.len(),
{
    if log.len() == 0 {
        Seq::empty()
    } else if log[0].id == id {
        remove_id(log.drop_first(), id)
    } else {
        seq![log[0]] + remove_id(log.drop_first(), id)
    }
}

/// No two entries adjacent in the log share the same content.
pub open spec fn adjacent_distinct(log: Seq<EntryModel>) -> bool {
    forall|i: int| 0 < i < log.len() ==> #[trigger] log[i].content != log[i - 1].content
}

/// Removing an id that no entry of the log carries leaves the log as it
/// was: deletion by a nonexistent id is an idempotent no-op.
pub proof fn lemma_delete_absent_id_noop(log: Seq<EntryModel>, id: int)
    requires
        forall|i: int| 0 <= i < log.len() ==> log[i].id != id,
    ensures
        remove_id(log, id) == log,
    decreases log.len(),
{
    if log.len() > 0 {
        assert(forall|i: int|
            0 <= i < log.drop_first().len() ==> log.drop_first()[i].id != id);
        lemma_delete_absent_id_noop(log.drop_first(), id);
        assert(remove_id(log, id) =~= log);
    } else {
        assert(remove_id(log, id) =~= log);
    }
}

/// Appending an entry whose content differs from the last stored content
/// keeps adjacent entries distinct: under sequential persistence the at-rest
/// dedup maintains the adjacency invariant.
pub proof fn lemma_append_keeps_adjacent_distinct(pre: Seq<EntryModel>, e: EntryModel)
    requires
        adjacent_distinct(pre),
        pre.len() > 0 ==> pre.last().content != e.content,
    ensures
        adjacent_distinct(pre.push(e)),
{
    let post = pre.push(e);
    assert forall|i: int| 0 < i < post.len() implies #[trigger] post[i].content != post[i
        - 1].content by {
        if i < pre.len() {
            assert(post[i] == pre[i] && post[i - 1] == pre[i - 1]);
        } else {
            assert(post[i] == e && post[i - 1] == pre[pre.len() - 1]);
        }
    }
}

/// No two adjacent values of a content sequence are equal.
pub open spec fn contents_adjacent_distinct(cs: Seq<Seq<char>>) -> bool {
    forall|i: int| 0 < i < cs.len() ==> #[trigger] cs[i] != cs[i - 1]
}

/// The contents on store after a whole run of sequential persistence: the
/// messages are taken in order, and each is appended unless it equals the
/// content stored most recently at its own step.
pub open spec fn drained_contents(stored: Seq<Seq<char>>, msgs: Seq<Seq<char>>) -> Seq<Seq<char>>
    decreases msgs.len(),
{
    if msgs.len() == 0 {
        stored
    } else {
        let next = if stored.len() > 0 && stored.last() == msgs[0] {
            stored
        } else {
            stored.push(msgs[0])
        };
        drained_contents(next, msgs.drop_first())
    }
}

/// Under sequential persistence the at-rest dedup keeps the store free of
/// adjacent duplicates: however many messages are drained, in whatever
/// order they arrived, no two entries adjacent on store share a content.
pub proof fn lemma_sequential_persistence_adjacent_distinct(
    stored: Seq<Seq<char>>,
    msgs: Seq<Seq<char>>,
)
    requires
        contents_adjacent_distinct(stored),
    ensures
        contents_adjacent_distinct(drained_contents(stored, msgs)),
    decreases msgs.len(),
{
    if msgs.len() > 0 {
        if stored.len() > 0 && stored.last() == msgs[0] {
            lemma_sequential_persistence_adjacent_distinct(stored, msgs.drop_first());
        } else {
            let next = stored.push(msgs[0]);
            assert forall|i: int| 0 < i < next.len() implies #[trigger] next[i] != next[i
                - 1] by {
                if i < stored.len() {
                    assert(next[i] == stored[i] && next[i - 1] == stored[i - 1]);
                } else {
                    assert(next[i] == msgs[0] && next[i - 1] == stored[stored.len() - 1]);
                }
            }
            lemma_sequential_persistence_adjacent_distinct(next, msgs.drop_first());
        }
    }
}

/// How many entries a recency query returns when no limit is given.
pub const DEFAULT_HISTORY_LIMIT: usize = 20;

/// The at-rest dedup decision over the content read back from a store: a
/// candidate is a duplicate exactly when the store's most recent content
/// exists and equals it.
pub fn is_duplicate_of_last(last: &Option<String>, candidate: &String) -> (b: bool)
    ensures
        b == (match last {
            Some(l) => l@ == candidate@,
            None => false,
        }),
{
    match last {
        Some(l) => *l == *candidate,
        None => false,
    }
}

/// The durable, ordered log of clipboard entries.
pub struct HistoryLog {
    entries: Vec<ClipboardEntry>,
    next_id: i64,
}

impl View for HistoryLog {
    type V = Seq<EntryModel>;

    /// The stored entries, oldest first.
    closed spec fn view(&self) -> Seq<EntryModel> {
        views_of(self.entries@)
    }
}

impl HistoryLog {
    /// The id the next inserted entry will be given.
    pub closed spec fn next_id_spec(&self) -> int {
        self.next_id as int
    }

    pub open spec fn wf(&self) -> bool {
        1 <= self.next_id_spec() <= i64::MAX && (forall|i: int|
            0 <= i < self@.len() ==> self@[i].id < self.next_id_spec())
    }

    /// The content of the most recently stored entry, if any.
    pub open spec fn spec_most_recent(&self) -> Option<Seq<char>> {
        if self@.len() == 0 {
            None
        } else {
            Some(self@.last().content)
        }
    }

    /// The at-rest dedup rule: a content is written exactly when it differs
    /// from the most recently stored content.
    pub open spec fn accepts(&self, content: Seq<char>) -> bool {
        self.spec_most_recent() != Some(content)
    }

    pub fn new() -> (log: HistoryLog)
        ensures
            log@ == Seq::<EntryModel>::empty(),
            log.wf(),
            log.next_id_spec() == 1,
    {
        let log = HistoryLog { entries: Vec::new(), next_id: 1 };
        proof {
            assert(log@ =~= Seq::<EntryModel>::empty());
        }
        log
    }

    pub fn len(&self) -> (n: usize)
        ensures
            n as nat == self@.len(),
    {
        self.entries.len()
    }

    /// Whether an id is still free for the next insert; exhausted only after
    /// the whole i64 range has been assigned.
    pub fn can_assign_id(&self) -> (b: bool)
        ensures
            b == (self.next_id_spec() < i64::MAX),
    {
        self.next_id < i64::MAX
    }

    pub fn most_recent_content(&self) -> (r: Option<String>)
        ensures
            match r {
                Some(s) => self.spec_most_recent() == Some(s@),
                None => self.spec_most_recent() is None,
            },
    {
        let n = self.entries.len();
        if n == 0 {
            None
        } else {
            Some(self.entries[n - 1].content.clone())
        }
    }

    /// Appends `content` with its tag and timestamp unless it equals the
    /// most recently stored content, in which case nothing is written. The
    /// new entry takes the next free id; under sequential use the adjacency
    /// invariant is preserved.
    pub fn insert_if_not_duplicate(
        &mut self,
        content: String,
        content_type: ContentType,
        timestamp: String,
    ) -> (inserted: bool)
        requires
            old(self).wf(),
            old(self).next_id_spec() < i64::MAX,
        ensures
            final(self).wf(),
            inserted == old(self).accepts(content@),
            !inserted ==> final(self)@ == old(self)@ && final(self).next_id_spec() == old(
                self,
            ).next_id_spec(),
            inserted ==> final(self)@ == old(self)@.push(
                EntryModel {
                    id: old(self).next_id_spec(),
                    content: content@,
                    timestamp: timestamp@,
                    content_type: content_type,
                },
            ) && final(self).next_id_spec() == old(self).next_id_spec() + 1,
            adjacent_distinct(old(self)@) ==> adjacent_distinct(final(self)@),
    {
        let n = self.entries.len();
        if n > 0 && self.entries[n - 1].content == content {
            return false;
        }
        let ghost pre = self@;
        let e = ClipboardEntry { id: self.next_id, content, timestamp, content_type };
        let ghost em = e@;
        self.entries.push(e);
        self.next_id = self.next_id + 1;
        proof {
            assert(self@ =~= pre.push(em));
            if adjacent_distinct(pre) {
                lemma_append_keeps_adjacent_distinct(pre, em);
            }
        }
        true
    }

    /// The most recent `limit` entries, most recent first: the result holds
    /// at most `limit` entries, and its element `i` is the `i`-th newest of
    /// the log.
    pub fn list_recent(&self, limit: usize) -> (r: Vec<ClipboardEntry>)
        ensures
            r@.len() == vstd::math::min(limit as int, self@.len() as int),
            forall|i: int| 0 <= i < r@.len() ==> r@[i]@ == self@[self@.len() - 1 - i],
    {
        let n = self.entries.len();
        let mut r: Vec<ClipboardEntry> = Vec::new();
        let mut k: usize = 0;
        while k < limit && k < n
            invariant
                n == self@.len(),
                k <= n,
                k <= limit,
                r@.len() == k as int,
                forall|i: int| 0 <= i < k ==> r@[i]@ == self@[self@.len() - 1 - i],
            decreases n - k,
        {
            let e = &self.entries[n - 1 - k];
            let copy = ClipboardEntry {
                id: e.id,
                content: e.content.clone(),
                timestamp: e.timestamp.clone(),
                content_type: e.content_type,
            };
            r.push(copy);
            k += 1;
        }
        r
    }

    /// The most recent entries under the caller's limit, or under the
    /// default limit where the caller gave none.
    pub fn list_recent_opt(&self, limit: Option<usize>) -> (r: Vec<ClipboardEntry>)
        ensures
            r@.len() == vstd::math::min(
                match limit {
                    Some(l) => l as int,
                    None => DEFAULT_HISTORY_LIMIT as int,
                },
                self@.len() as int,
            ),
            forall|i: int| 0 <= i < r@.len() ==> r@[i]@ == self@[self@.len() - 1 - i],
    {
        match limit {
            Some(l) => self.list_recent(l),
            None => self.list_recent(DEFAULT_HISTORY_LIMIT),
        }
    }

    /// Removes every entry carrying `id`, keeping the order of the rest;
    /// succeeds whether or not such an entry exists, and an absent id leaves
    /// the log unchanged.
    pub fn delete_by_id(&mut self, id: i64) -> (b: bool)
        requires
            old(self).wf(),
        ensures
            b,
            final(self).wf(),
            final(self)@ == remove_id(old(self)@, id as int),
            final(self).next_id_spec() == old(self).next_id_spec(),
    {
        let ghost pre = self@;
        let mut kept: Vec<ClipboardEntry> = Vec::new();
        proof {
            assert(views_of(kept@) + remove_id(self@, id as int) =~= remove_id(pre, id as int));
        }
        while self.entries.len() > 0
            invariant
                self.next_id == old(self).next_id,
                forall|i: int| 0 <= i < self@.len() ==> self@[i].id < self.next_id_spec(),
                forall|i: int|
                    0 <= i < views_of(kept@).len() ==> views_of(kept@)[i].id
                        < self.next_id_spec(),
                remove_id(pre, id as int) == views_of(kept@) + remove_id(self@, id as int),
            decreases self.entries@.len(),
        {
            let ghost prev = self@;
            let ghost kept_pre = views_of(kept@);
            let e = self.entries.remove(0);
            proof {
                assert(self@ =~= prev.drop_first());
                assert(prev[0] == e@);
            }
            if e.id != id {
                kept.push(e);
                proof {
                    assert(views_of(kept@) =~= kept_pre.push(e@));
                    assert(kept_pre.push(e@) + remove_id(self@, id as int) =~= kept_pre + (seq![
                        e@,
                    ] + remove_id(self@, id as int)));
                }
            }
        }
        proof {
            assert(self@ =~= Seq::<EntryModel>::empty());
            assert(views_of(kept@) + remove_id(self@, id as int) =~= views_of(kept@));
        }
        self.entries = kept;
        true
    }

    /// Empties the log; succeeds on an already empty log too. Assigned ids
    /// are not reused afterwards.
    pub fn delete_all(&mut self) -> (b: bool)
        requires
            old(self).wf(),
        ensures
            b,
            final(self).wf(),
            final(self)@ == Seq::<EntryModel>::empty(),
            final(self).next_id_spec() == old(self).next_id_spec(),
    {
        self.entries.clear();
        proof {
            assert(self@ =~= Seq::<EntryModel>::empty());
        }
        true
    }
}

} // verus!
