//! The pipeline's decision path, wired end to end: a poll consults the
//! dedup guard and offers a detected change to the bounded relay; a drain
//! step takes the oldest relayed message, classifies it, applies the
//! at-rest dedup against the history log, appends the entry on acceptance,
//! and notifies the UI of the message whether or not it was written.

use vstd::prelude::*;

use crate::classify::{classify, spec_classify};
use crate::dedup::DedupGuard;
use crate::relay::BoundedRelay;
use crate::storage::{ClipboardEntry, EntryModel, HistoryLog};

verus! {

/// Relies on chrono's `Utc::now()` and `DateTime::to_rfc3339`: the current
/// instant rendered as an RFC 3339 timestamp. Which instant comes back
/// depends on the clock, so nothing is assumed beyond the string being
/// nonempty.
#[verifier::external_body]
fn now_rfc3339() -> (r: String)
    ensures
        r@.len() > 0,
{
    chrono::Utc::now().to_rfc3339()
}

/// One unit of persistence work, for a message taken from the relay:
/// classify the content, and append it to the log under the given timestamp
/// unless it equals the most recently stored content. Returns whether a row
/// was written; an exhausted id range counts as a write failure and stores
/// nothing, and in every case the caller goes on to notify the UI.
pub fn process_message(log: &mut HistoryLog, content: &String, timestamp: String) -> (stored: bool)
    requires
        old(log).wf(),
    ensures
        final(log).wf(),
        stored == (old(log).accepts(content@) && old(log).next_id_spec() < i64::MAX),
        !stored ==> final(log)@ == old(log)@ && final(log).next_id_spec() == old(
            log,
        ).next_id_spec(),
        stored ==> final(log)@ == old(log)@.push(
            EntryModel {
                id: old(log).next_id_spec(),
                content: content@,
                timestamp: timestamp@,
                content_type: spec_classify(content@),
            },
        ) && final(log).next_id_spec() == old(log).next_id_spec() + 1,
        crate::storage::adjacent_distinct(old(log)@) ==> crate::storage::adjacent_distinct(
            final(log)@,
        ),
{
    let tag = classify(content.as_str());
    if log.can_assign_id() {
        log.insert_if_not_duplicate(content.clone(), tag, timestamp)
    } else {
        false
    }
}

/// What a poll tick did with a sample.
#[derive(Clone, Copy, PartialEq, Eq, Structural, Debug)]
pub enum PollOutcome {
    /// The sample repeated the last observed content and was discarded.
    Unchanged,
    /// The sample was a change and joined the relay queue.
    Enqueued,
    /// The sample was a change but the relay was at capacity: the producer
    /// must wait for the consumer to free a slot and offer it again.
    RelayFull,
}

/// The whole decision path of the watcher: dedup guard, bounded relay,
/// history log, and the run of notified payloads.
pub struct Pipeline {
    guard: DedupGuard,
    relay: BoundedRelay,
    log: HistoryLog,
    notifications: Vec<String>,
}

impl Pipeline {
    /// The content the guard last observed.
    pub closed spec fn last_seen(&self) -> Seq<char> {
        self.guard.last_seen()
    }

    /// The messages waiting in the relay, oldest first.
    pub closed spec fn pending(&self) -> Seq<Seq<char>> {
        self.relay.contents()
    }

    pub closed spec fn relay_capacity(&self) -> nat {
        self.relay.capacity()
    }

    /// The stored entries, oldest first.
    pub closed spec fn log_view(&self) -> Seq<EntryModel> {
        self.log@
    }

    pub closed spec fn log_next_id(&self) -> int {
        self.log.next_id_spec()
    }

    /// The at-rest dedup rule: a drained message is written exactly when it
    /// differs from the most recently stored content.
    pub open spec fn log_accepts(&self, content: Seq<char>) -> bool {
        self.log_view().len() == 0 || self.log_view().last().content != content
    }

    /// Every payload notified to the UI so far, in order.
    pub closed spec fn notified(&self) -> Seq<Seq<char>> {
        self.notifications@.map_values(|s: String| s@)
    }

    pub closed spec fn wf(&self) -> bool {
        self.relay.well_formed() && self.log.wf()
    }

    /// A fresh pipeline over an existing (possibly restored) log; the guard
    /// starts at the empty string.
    pub fn new(log: HistoryLog, relay_capacity: usize) -> (p: Pipeline)
        requires
            log.wf(),
            relay_capacity >= 1,
        ensures
            p.wf(),
            p.last_seen() == Seq::<char>::empty(),
            p.pending() == Seq::<Seq<char>>::empty(),
            p.relay_capacity() == relay_capacity as nat,
            p.log_view() == log@,
            p.notified() == Seq::<Seq<char>>::empty(),
    {
        let p = Pipeline {
            guard: DedupGuard::new(),
            relay: BoundedRelay::new(relay_capacity),
            log,
            notifications: Vec::new(),
        };
        proof {
            assert(p.notified() =~= Seq::<Seq<char>>::empty());
        }
        p
    }

    /// One poll tick that sampled `sample` from the clipboard: the guard
    /// records the sample; if it was a change it is offered to the relay,
    /// which accepts it exactly when a slot is free. The log and the
    /// notifications only move when the worker drains.
    pub fn poll(&mut self, sample: &String) -> (o: PollOutcome)
        requires
            old(self).wf(),
        ensures
            final(self).wf(),
            final(self).last_seen() == sample@,
            final(self).log_view() == old(self).log_view(),
            final(self).log_next_id() == old(self).log_next_id(),
            final(self).notified() == old(self).notified(),
            final(self).relay_capacity() == old(self).relay_capacity(),
            sample@ == old(self).last_seen() ==> (o == PollOutcome::Unchanged
                && final(self).pending() == old(self).pending()),
            (sample@ != old(self).last_seen()
                && old(self).pending().len() < old(self).relay_capacity()) ==> (o
                == PollOutcome::Enqueued
                && final(self).pending() == old(self).pending().push(sample@)),
            (sample@ != old(self).last_seen()
                && old(self).pending().len() >= old(self).relay_capacity()) ==> (o
                == PollOutcome::RelayFull
                && final(self).pending() == old(self).pending()),
    {
        let changed = self.guard.observe(sample);
        if !changed {
            PollOutcome::Unchanged
        } else if self.relay.try_submit(sample.clone()) {
            PollOutcome::Enqueued
        } else {
            PollOutcome::RelayFull
        }
    }

    /// Retries the handoff of a change the guard has already recorded but a
    /// full relay refused: what the blocked producer does, over and over,
    /// until the worker frees a slot.
    pub fn resubmit(&mut self, sample: &String) -> (accepted: bool)
        requires
            old(self).wf(),
        ensures
            final(self).wf(),
            final(self).last_seen() == old(self).last_seen(),
            final(self).log_view() == old(self).log_view(),
            final(self).log_next_id() == old(self).log_next_id(),
            final(self).notified() == old(self).notified(),
            final(self).relay_capacity() == old(self).relay_capacity(),
            accepted == (old(self).pending().len() < old(self).relay_capacity()),
            accepted ==> final(self).pending() == old(self).pending().push(sample@),
            !accepted ==> final(self).pending() == old(self).pending(),
    {
        self.relay.try_submit(sample.clone())
    }

    /// One step of the persistence worker under the given write timestamp:
    /// takes the oldest relayed message, if any, runs the persistence unit
    /// on it, and notifies the UI of the message regardless of the write
    /// outcome. Returns whether a message was handled and whether it was
    /// stored.
    pub fn drain_one(&mut self, timestamp: String) -> (r: Option<bool>)
        requires
            old(self).wf(),
        ensures
            final(self).wf(),
            final(self).last_seen() == old(self).last_seen(),
            final(self).relay_capacity() == old(self).relay_capacity(),
            old(self).pending().len() == 0 ==> r is None && final(self).pending() == old(
                self,
            ).pending() && final(self).log_view() == old(self).log_view() && final(self).notified()
                == old(self).notified() && final(self).log_next_id() == old(self).log_next_id(),
            old(self).pending().len() > 0 ==> {
                let msg = old(self).pending()[0];
                let stored = old(self).log_accepts(msg) && old(self).log_next_id() < i64::MAX;
                r == Some(stored) && final(self).pending() == old(self).pending().drop_first()
                    && final(self).notified() == old(self).notified().push(msg) && (if stored {
                    final(self).log_view() == old(self).log_view().push(
                        EntryModel {
                            id: old(self).log_next_id(),
                            content: msg,
                            timestamp: timestamp@,
                            content_type: spec_classify(msg),
                        },
                    ) && final(self).log_next_id() == old(self).log_next_id() + 1
                } else {
                    final(self).log_view() == old(self).log_view() && final(self).log_next_id()
                        == old(self).log_next_id()
                })
            },
    {
        match self.relay.recv() {
            None => None,
            Some(msg) => {
                let ghost pre_notified = self.notified();
                let stored = process_message(&mut self.log, &msg, timestamp);
                self.notifications.push(msg);
                proof {
                    assert(self.notified() =~= pre_notified.push(
                        old(self).pending()[0],
                    ));
                }
                Some(stored)
            },
        }
    }

    /// A worker step stamped with the clock's current RFC 3339 instant.
    pub fn drain_one_now(&mut self) -> (r: Option<bool>)
        requires
            old(self).wf(),
        ensures
            final(self).wf(),
            final(self).last_seen() == old(self).last_seen(),
            final(self).relay_capacity() == old(self).relay_capacity(),
            old(self).pending().len() == 0 ==> r is None && final(self).pending() == old(
                self,
            ).pending() && final(self).log_view() == old(self).log_view() && final(self).notified()
                == old(self).notified(),
            old(self).pending().len() > 0 ==> {
                let msg = old(self).pending()[0];
                let stored = old(self).log_accepts(msg) && old(self).log_next_id() < i64::MAX;
                r == Some(stored) && final(self).pending() == old(self).pending().drop_first()
                    && final(self).notified() == old(self).notified().push(msg) && (if stored {
                    final(self).log_view().len() == old(self).log_view().len() + 1
                        && final(self).log_view().drop_last() == old(self).log_view()
                        && final(self).log_view().last().content == msg
                        && final(self).log_view().last().content_type == spec_classify(msg)
                        && final(self).log_view().last().id == old(self).log_next_id()
                        && final(self).log_view().last().timestamp.len() > 0
                } else {
                    final(self).log_view() == old(self).log_view()
                })
            },
    {
        let ts = now_rfc3339();
        let r = self.drain_one(ts);
        proof {
            if old(self).pending().len() > 0 && old(self).log.accepts(old(self).pending()[0])
                && old(self).log_next_id() < i64::MAX {
                assert(self.log_view().drop_last() =~= old(self).log_view());
            }
        }
        r
    }

    /// The most recent `limit` stored entries, newest first.
    pub fn history(&self, limit: usize) -> (r: Vec<ClipboardEntry>)
        ensures
            r@.len() == vstd::math::min(limit as int, self.log_view().len() as int),
            forall|i: int|
                0 <= i < r@.len() ==> r@[i]@ == self.log_view()[self.log_view().len() - 1 - i],
    {
        self.log.list_recent(limit)
    }

    /// The payloads notified so far, oldest first.
    pub fn notified_payloads(&self) -> (r: &Vec<String>)
        ensures
            r@.map_values(|s: String| s@) == self.notified(),
    {
        &self.notifications
    }

    pub fn pending_len(&self) -> (n: usize)
        ensures
            n as nat == self.pending().len(),
    {
        self.relay.len()
    }
}

} // verus!
