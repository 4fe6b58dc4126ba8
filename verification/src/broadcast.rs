//! Best-effort write to every connection.
//!
//! A broadcast attempts every connection whatever the earlier writes came
//! to, and removes nothing: judging liveness is the prober's business.

use vstd::prelude::*;
use crate::address::PeerAddr;
use crate::registry::{attempted, Entry, Registry};
use crate::transport::WriteOutcome;

verus! {

/// The delivery report for a table whose writes came to `outcomes`: each
/// address in the order of the table, with whether its transport took the
/// bytes.  A connection without an outcome got nothing.
pub open spec fn delivery<H>(entries: Seq<Entry<H>>, outcomes: Seq<WriteOutcome>) -> Seq<
    (PeerAddr, bool),
> {
    Seq::new(
        entries.len(),
        |i: int| (entries[i].addr, i < outcomes.len() && outcomes[i].is_delivered()),
    )
}

/// `report` is the delivery report of the table for some outcomes that
/// `write` can give when it is handed each handle in turn with `bytes`.
pub open spec fn broadcasted<H, F: Fn(&H, &[u8]) -> WriteOutcome>(
    entries: Seq<Entry<H>>,
    bytes: &[u8],
    write: &F,
    report: Seq<(PeerAddr, bool)>,
) -> bool {
    exists|outcomes: Seq<WriteOutcome>|
        attempted(entries, bytes, write, outcomes) && report == delivery(entries, outcomes)
}

impl<H> Registry<H> {
    /// The delivery report for the writes' `outcomes`, given in the order of
    /// the table.
    pub fn delivery_report(&self, outcomes: &Vec<WriteOutcome>) -> (report: Vec<(PeerAddr, bool)>)
        ensures
            report@ == delivery(self@, outcomes@),
    {
        let mut report: Vec<(PeerAddr, bool)> = Vec::new();
        let n = self.len();
        let mut i: usize = 0;
        while i < n
            invariant
                i <= n,
                n == self@.len(),
                report@.len() == i,
                forall|k: int| 0 <= k < i ==> report@[k] == delivery(self@, outcomes@)[k],
            decreases n - i,
        {
            let sent = i < outcomes.len() && outcomes[i].delivered();
            report.push((self.at(i).addr, sent));
            i += 1;
        }
        report
    }

    /// Hands `bytes` to the transport of every connection and reports, for
    /// each address in the order of the table, whether the write went
    /// through.  The table itself is left as it is.
    pub fn broadcast<F>(&self, bytes: &[u8], write: &F) -> (report: Vec<(PeerAddr, bool)>) where
        F: Fn(&H, &[u8]) -> WriteOutcome,

        requires
            forall|i: int|
                0 <= i < self@.len() ==> write.requires((&(#[trigger] self@[i]).handle, bytes)),
        ensures
            broadcasted(self@, bytes, write, report@),
    {
        let outcomes = self.attempt_all(bytes, write);
        self.delivery_report(&outcomes)
    }
}

} // verus!
