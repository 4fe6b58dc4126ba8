//! Liveness by speculative write.
//!
//! A probe hands a fixed payload to the transport of each connection and
//! reads the outcome as a sign of life.  This is a heuristic: a peer whose
//! kernel still buffers writes looks alive although nobody reads.

use vstd::prelude::*;
use crate::address::PeerAddr;
use crate::registry::{attempted, stays, survivors, Entry, Registry};
use crate::transport::{probe, probe_payload, WriteOutcome};

verus! {

/// For each outcome in order, whether it leaves the peer counted as alive.
pub open spec fn alive_flags(outcomes: Seq<WriteOutcome>) -> Seq<bool> {
    Seq::new(outcomes.len(), |i: int| outcomes[i].is_alive())
}

/// The probe report for a table whose probes came to `outcomes`: each
/// address in the order of the table, with the verdict on its peer.  A
/// connection without an outcome was not shown dead, and counts as alive.
pub open spec fn health<H>(entries: Seq<Entry<H>>, outcomes: Seq<WriteOutcome>) -> Seq<
    (PeerAddr, bool),
> {
    Seq::new(entries.len(), |i: int| (entries[i].addr, stays(alive_flags(outcomes), i)))
}

/// `report` is the probe report of the table for some outcomes that `write`
/// can give when it is handed each handle in turn with the probe payload.
pub open spec fn probed<H, F: Fn(&H, &[u8]) -> WriteOutcome>(
    entries: Seq<Entry<H>>,
    write: &F,
    report: Seq<(PeerAddr, bool)>,
) -> bool {
    exists|outcomes: Seq<WriteOutcome>|
        attempted(entries, probe_payload(), write, outcomes) && report == health(entries, outcomes)
}

/// The verdicts of a report, in order.
pub open spec fn verdicts(report: Seq<(PeerAddr, bool)>) -> Seq<bool> {
    Seq::new(report.len(), |i: int| report[i].1)
}

impl<H> Registry<H> {
    /// The probe report for the probes' `outcomes`, given in the order of the
    /// table.
    pub fn health_report(&self, outcomes: &Vec<WriteOutcome>) -> (report: Vec<(PeerAddr, bool)>)
        ensures
            report@ == health(self@, outcomes@),
    {
        let mut report: Vec<(PeerAddr, bool)> = Vec::new();
        let n = self.len();
        let mut i: usize = 0;
        while i < n
            invariant
                i <= n,
                n == self@.len(),
                report@.len() == i,
                forall|k: int| 0 <= k < i ==> report@[k] == health(self@, outcomes@)[k],
            decreases n - i,
        {
            let alive = i >= outcomes.len() || outcomes[i].alive();
            report.push((self.at(i).addr, alive));
            i += 1;
        }
        report
    }

    /// Drops the connections whose probe met a hard error, and returns the
    /// probe report of the table as it was.  The `outcomes` are given in the
    /// order of the table; a connection without an outcome stays.
    pub fn evict(&mut self, outcomes: &Vec<WriteOutcome>) -> (report: Vec<(PeerAddr, bool)>)
        ensures
            report@ == health(old(self)@, outcomes@),
            final(self)@ == survivors(old(self)@, alive_flags(outcomes@)),
    {
        let report = self.health_report(outcomes);
        let mut keep: Vec<bool> = Vec::new();
        let mut i: usize = 0;
        while i < outcomes.len()
            invariant
                i <= outcomes@.len(),
                keep@.len() == i,
                forall|k: int| 0 <= k < i ==> keep@[k] == outcomes@[k].is_alive(),
            decreases outcomes@.len() - i,
        {
            keep.push(outcomes[i].alive());
            i += 1;
        }
        assert(keep@ == alive_flags(outcomes@));
        self.retain_flagged(&keep);
        report
    }

    /// Probes every connection and reports, for each address in the order of
    /// the table, whether its peer counts as alive.  Nothing is removed.
    pub fn probe_all<F>(&self, write: &F) -> (report: Vec<(PeerAddr, bool)>) where
        F: Fn(&H, &[u8]) -> WriteOutcome,

        requires
            forall|i: int|
                0 <= i < self@.len() ==> write.requires(
                    (&(#[trigger] self@[i]).handle, probe_payload()),
                ),
        ensures
            probed(self@, write, report@),
    {
        let outcomes = self.attempt_all(probe(), write);
        self.health_report(&outcomes)
    }

    /// Probes every connection and drops those whose probe met a hard error;
    /// the others keep their order.  Returns the probe report of the table as
    /// it was: the connections that stay are those it reports alive.
    pub fn evict_dead<F>(&mut self, write: &F) -> (report: Vec<(PeerAddr, bool)>) where
        F: Fn(&H, &[u8]) -> WriteOutcome,

        requires
            forall|i: int|
                0 <= i < old(self)@.len() ==> write.requires(
                    (&(#[trigger] old(self)@[i]).handle, probe_payload()),
                ),
        ensures
            probed(old(self)@, write, report@),
            final(self)@ == survivors(old(self)@, verdicts(report@)),
    {
        let outcomes = self.attempt_all(probe(), write);
        let report = self.evict(&outcomes);
        proof {
            lemma_verdicts_decide(old(self)@, outcomes@);
        }
        report
    }
}

/// The verdicts of a probe report decide who stays exactly as the outcomes
/// behind it do.
pub proof fn lemma_verdicts_decide<H>(entries: Seq<Entry<H>>, outcomes: Seq<WriteOutcome>)
    ensures
        survivors(entries, verdicts(health(entries, outcomes))) == survivors(
            entries,
            alive_flags(outcomes),
        ),
    decreases entries.len(),
{
    if entries.len() > 0 {
        let last = entries.len() - 1;
        lemma_verdicts_decide(entries.take(last), outcomes);
        lemma_survivors_agree(
            entries.take(last),
            verdicts(health(entries, outcomes)),
            verdicts(health(entries.take(last), outcomes)),
        );
    }
}

/// Who stays depends only on the flags of the positions that the table has.
pub proof fn lemma_survivors_agree<H>(entries: Seq<Entry<H>>, keep: Seq<bool>, other: Seq<bool>)
    requires
        forall|i: int| 0 <= i < entries.len() ==> stays(keep, i) == stays(other, i),
    ensures
        survivors(entries, keep) == survivors(entries, other),
    decreases entries.len(),
{
    if entries.len() > 0 {
        let last = entries.len() - 1;
        lemma_survivors_agree(entries.take(last), keep, other);
    }
}

} // verus!
