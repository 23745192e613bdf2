//! Dedup guard: the single owner of the last-observed clipboard content.
//! `observe` decides whether a freshly sampled value is a change, and on a
//! change records it before returning, so the guard always reflects the most
//! recent content passed to it, whatever later happens to the value
//! downstream.

use vstd::prelude::*;

verus! {

/// Holds the last content the poller handed in; initialized to the empty
/// string at startup.
pub struct DedupGuard {
    last: String,
}

/// The values the guard lets through when `samples` are observed one by one
/// while the guard last saw `last`: the head of every maximal run of equal
/// consecutive values, skipping a first run that merely repeats `last`.
pub open spec fn accepted_changes(last: Seq<char>, samples: Seq<Seq<char>>) -> Seq<Seq<char>>
    decreases samples.len(),
{
    if samples.len() == 0 {
        Seq::empty()
    } else {
        let rest = accepted_changes(samples[0], samples.drop_first());
        if samples[0] == last {
            rest
        } else {
            seq![samples[0]] + rest
        }
    }
}

/// The number of maximal runs of equal consecutive values in `samples` when
/// the value standing just before them was `prev`.
pub open spec fn runs_after(prev: Seq<char>, samples: Seq<Seq<char>>) -> nat
    decreases samples.len(),
{
    if samples.len() == 0 {
        0
    } else if samples[0] == prev {
        runs_after(samples[0], samples.drop_first())
    } else {
        1 + runs_after(samples[0], samples.drop_first())
    }
}

/// The number of maximal runs of equal consecutive values in `samples`.
pub open spec fn run_count(samples: Seq<Seq<char>>) -> nat {
    if samples.len() == 0 {
        0
    } else {
        1 + runs_after(samples[0], samples.drop_first())
    }
}

/// The guard lets through exactly one value per maximal run that does not continue
/// the previously seen content.
pub proof fn lemma_accepted_len_runs(last: Seq<char>, samples: Seq<Seq<char>>)
    ensures
        accepted_changes(last, samples).len() == runs_after(last, samples),
    decreases samples.len(),
{
    if samples.len() > 0 {
        lemma_accepted_len_runs(samples[0], samples.drop_first());
    }
}

/// For any sequence of samples whose first value differs from the content
/// the guard last saw, the number of change events emitted equals the number
/// of maximal runs of identical consecutive samples, not the number of raw
/// samples.
pub proof fn lemma_accepted_counts_runs(last: Seq<char>, samples: Seq<Seq<char>>)
    requires
        samples.len() > 0 ==> samples[0] != last,
    ensures
        accepted_changes(last, samples).len() == run_count(samples),
{
    if samples.len() > 0 {
        lemma_accepted_len_runs(samples[0], samples.drop_first());
    }
}

impl DedupGuard {
    /// The content most recently passed to `observe`, empty at startup.
    pub closed spec fn last_seen(&self) -> Seq<char> {
        self.last@
    }

    pub fn new() -> (g: DedupGuard)
        ensures
            g.last_seen() == Seq::<char>::empty(),
    {
        DedupGuard { last: String::new() }
    }

    /// Decides whether `candidate` is a change: true iff it differs from the
    /// last observed content. Afterwards the guard holds `candidate`, so it
    /// always reflects the most recent content passed in, regardless of what
    /// the persistence stage later does with the value.
    pub fn observe(&mut self, candidate: &String) -> (changed: bool)
        ensures
            changed == (candidate@ != old(self).last_seen()),
            final(self).last_seen() == candidate@,
    {
        if self.last == *candidate {
            false
        } else {
            self.last = candidate.clone();
            true
        }
    }

    /// Observes each sample in order and returns the accepted changes, in
    /// order: one per maximal run of identical consecutive samples.
    pub fn observe_all(&mut self, samples: &Vec<String>) -> (accepted: Vec<String>)
        ensures
            accepted@.map_values(|s: String| s@) == accepted_changes(
                old(self).last_seen(),
                samples@.map_values(|s: String| s@),
            ),
            final(self).last_seen() == if samples@.len() == 0 {
                old(self).last_seen()
            } else {
                samples@.last()@
            },
    {
        let ghost sviews = samples@.map_values(|s: String| s@);
        let ghost last0 = self.last_seen();
        let mut accepted: Vec<String> = Vec::new();
        let n = samples.len();
        let mut i: usize = 0;
        assert(sviews.skip(0) =~= sviews);
        assert(accepted@.map_values(|s: String| s@) + accepted_changes(last0, sviews) =~= accepted_changes(
            last0,
            sviews,
        ));
        while i < n
            invariant
                i <= n,
                n == samples@.len(),
                sviews == samples@.map_values(|s: String| s@),
                accepted_changes(last0, sviews) == accepted@.map_values(|s: String| s@)
                    + accepted_changes(self.last_seen(), sviews.skip(i as int)),
                self.last_seen() == if i == 0 {
                    last0
                } else {
                    sviews[i - 1]
                },
            decreases n - i,
        {
            let ghost pre_acc = accepted@.map_values(|s: String| s@);
            assert(sviews.skip(i as int).len() > 0);
            assert(sviews.skip(i as int)[0] == sviews[i as int]);
            assert(sviews.skip(i as int).drop_first() =~= sviews.skip(i as int + 1));
            let changed = self.observe(&samples[i]);
            if changed {
                accepted.push(samples[i].clone());
                assert(accepted@.map_values(|s: String| s@) =~= pre_acc.push(sviews[i as int]));
                assert(pre_acc.push(sviews[i as int]) + accepted_changes(
                    self.last_seen(),
                    sviews.skip(i as int + 1),
                ) =~= pre_acc + (seq![sviews[i as int]] + accepted_changes(
                    self.last_seen(),
                    sviews.skip(i as int + 1),
                )));
            }
            i += 1;
        }
        assert(sviews.skip(n as int) =~= Seq::empty());
        assert(accepted@.map_values(|s: String| s@) + accepted_changes(
            self.last_seen(),
            Seq::empty(),
        ) =~= accepted@.map_values(|s: String| s@));
        accepted
    }
}

} // verus!
