//! The connection that the operator works with.
//!
//! The selection is an address, not a position: positions shift when
//! entries are removed, an address does not.  The selected address may
//! belong to no connection any more; it is looked up anew at every use.

use vstd::prelude::*;
use crate::address::PeerAddr;
use crate::error::ConsoleError;
use crate::registry::{
    first_with, insert_all, is_first_with, lemma_first_exists, lemma_first_with,
    lemma_first_with_is_first, lemma_inserts_append, lemma_stay_before_rises,
    lemma_survivor_origin, lemma_survivor_position, stay_before, stays, survivors, Entry, Registry,
};
use crate::transport::WriteOutcome;

verus! {

/// At most one selected address.
pub struct Selection {
    current: Option<PeerAddr>,
}

/// The position that a selection stands for in a table: the first whose
/// entry has the selected address.
pub open spec fn target<H>(selected: Option<PeerAddr>, entries: Seq<Entry<H>>) -> Option<int> {
    match selected {
        Some(addr) => first_with(entries, addr),
        None => None,
    }
}

/// What a unicast reports when the write to the connection at `addr` came to
/// `outcome`.
pub open spec fn unicast_result(addr: PeerAddr, outcome: WriteOutcome) -> Result<
    PeerAddr,
    ConsoleError,
> {
    if outcome.is_delivered() {
        Ok(addr)
    } else {
        Err(ConsoleError::WriteFailure)
    }
}

/// The report of a unicast after the write to the connection at `addr` came
/// to `outcome`: the address on delivery, a write failure otherwise.
pub fn unicast_report(addr: PeerAddr, outcome: WriteOutcome) -> (report: Result<
    PeerAddr,
    ConsoleError,
>)
    ensures
        report == unicast_result(addr, outcome),
{
    if outcome.delivered() {
        Ok(addr)
    } else {
        Err(ConsoleError::WriteFailure)
    }
}

/// `sent` is what a unicast of `bytes` reports: `NoSelection` when the
/// selection stands for no connection, and otherwise the report for some
/// outcome that `write` can give when it is handed the handle of that
/// connection with `bytes`.
pub open spec fn unicast<H, F: Fn(&H, &[u8]) -> WriteOutcome>(
    selected: Option<PeerAddr>,
    entries: Seq<Entry<H>>,
    bytes: &[u8],
    write: &F,
    sent: Result<PeerAddr, ConsoleError>,
) -> bool {
    match target(selected, entries) {
        Some(i) => exists|outcome: WriteOutcome|
            write.ensures((&entries[i].handle, bytes), outcome) && sent == unicast_result(
                entries[i].addr,
                outcome,
            ),
        None => sent == Err::<PeerAddr, ConsoleError>(ConsoleError::NoSelection),
    }
}

impl View for Selection {
    type V = Option<PeerAddr>;

    closed spec fn view(&self) -> Option<PeerAddr> {
        self.current
    }
}

impl Selection {
    /// Nothing selected.
    pub fn new() -> (selection: Self)
        ensures
            selection@ is None,
    {
        Selection { current: None }
    }

    /// The selected address.
    pub fn show(&self) -> (current: Option<PeerAddr>)
        ensures
            current == self@,
    {
        self.current
    }

    /// Selects the connection that stands at `index` now, by its address.
    /// Past the end of the table the selection stays what it was.
    pub fn select<H>(&mut self, registry: &Registry<H>, index: usize) -> (selected: Result<
        PeerAddr,
        ConsoleError,
    >)
        ensures
            index < registry@.len() ==> selected == Ok::<PeerAddr, ConsoleError>(
                registry@[index as int].addr,
            ) && final(self)@ == Some(registry@[index as int].addr),
            index >= registry@.len() ==> selected == Err::<PeerAddr, ConsoleError>(
                ConsoleError::IndexOutOfRange,
            ) && final(self)@ == old(self)@,
    {
        match registry.get(index) {
            Some(entry) => {
                self.current = Some(entry.addr);
                Ok(entry.addr)
            },
            None => Err(ConsoleError::IndexOutOfRange),
        }
    }

    /// The connection that the selection stands for now, if the table still
    /// has one with the selected address.
    pub fn resolve<'a, H>(&self, registry: &'a Registry<H>) -> (found: Option<&'a Entry<H>>)
        ensures
            match found {
                Some(entry) => target(self@, registry@) is Some && *entry == registry@[target(
                    self@,
                    registry@,
                ).unwrap()],
                None => target(self@, registry@) is None,
            },
    {
        match self.current {
            Some(addr) => registry.find_by_address(addr),
            None => None,
        }
    }

    /// Hands `bytes` to the transport of the selected connection, and to no
    /// other.  Reports the address on delivery, `WriteFailure` when the write
    /// did not go through, and `NoSelection` when the selection stands for no
    /// connection of the table; then nothing is written.
    pub fn send_to_selected<H, F>(&self, registry: &Registry<H>, bytes: &[u8], write: &F) -> (sent:
        Result<PeerAddr, ConsoleError>) where
        F: Fn(&H, &[u8]) -> WriteOutcome,

        requires
            target(self@, registry@) matches Some(i) ==> write.requires(
                (&registry@[i].handle, bytes),
            ),
        ensures
            unicast(self@, registry@, bytes, write, sent),
    {
        match self.resolve(registry) {
            Some(entry) => {
                let outcome = write(&entry.handle, bytes);
                unicast_report(entry.addr, outcome)
            },
            None => Err(ConsoleError::NoSelection),
        }
    }
}

/// Connections that are accepted later change nothing for a selection that
/// stands for a connection: it stands for the same connection, at the same
/// position.
pub proof fn lemma_selection_survives_inserts<H>(
    entries: Seq<Entry<H>>,
    batch: Seq<Entry<H>>,
    selected: Option<PeerAddr>,
)
    requires
        target(selected, entries) is Some,
    ensures
        target(selected, insert_all(entries, batch)) == target(selected, entries),
        insert_all(entries, batch)[target(selected, entries).unwrap()] == entries[target(
            selected,
            entries,
        ).unwrap()],
{
    let addr = selected.unwrap();
    lemma_inserts_append(entries, batch);
    lemma_first_with_is_first(entries, addr);
    let t = first_with(entries, addr).unwrap();
    assert forall|j: int| 0 <= j < t implies (#[trigger] (entries + batch)[j]).addr != addr by {
        assert((entries + batch)[j] == entries[j]);
    }
    lemma_first_with(entries + batch, addr, t);
}

/// A selection made by position outlives the eviction of other entries.  If
/// the entry at `index` stays, its address still stands for a connection
/// afterwards; and if it was the first with its address, the selection
/// stands for that very connection, at the position to which it has moved,
/// and not for whatever stands at `index` now.
pub proof fn lemma_selection_survives_eviction<H>(
    entries: Seq<Entry<H>>,
    keep: Seq<bool>,
    index: int,
)
    requires
        0 <= index < entries.len(),
        stays(keep, index),
    ensures
        target(Some(entries[index].addr), survivors(entries, keep)) matches Some(t) && survivors(
            entries,
            keep,
        )[t].addr == entries[index].addr,
        is_first_with(entries, entries[index].addr, index) ==> target(
            Some(entries[index].addr),
            survivors(entries, keep),
        ) == Some(stay_before(entries, keep, index) as int) && survivors(entries, keep)[stay_before(
            entries,
            keep,
            index,
        ) as int] == entries[index],
{
    let addr = entries[index].addr;
    let left = survivors(entries, keep);
    let moved = stay_before(entries, keep, index) as int;
    lemma_survivor_position(entries, keep, index);
    let first = lemma_first_exists(left, addr, moved);
    if is_first_with(entries, addr, index) {
        assert forall|r: int| 0 <= r < moved implies (#[trigger] left[r]).addr != addr by {
            let origin = lemma_survivor_origin(entries, keep, r);
            if origin >= index {
                lemma_stay_before_rises(entries, keep, index, origin);
            }
        }
        lemma_first_with(left, addr, moved);
    }
}

/// A selection made by position outlives the removal of another entry: the
/// address of the entry at `index` still stands for a connection after the
/// entry at `removed` is gone; and if the entry at `index` was the first with
/// its address, the selection stands for that very connection.
pub proof fn lemma_selection_survives_remove<H>(entries: Seq<Entry<H>>, index: int, removed: int)
    requires
        0 <= index < entries.len(),
        0 <= removed < entries.len(),
        removed != index,
    ensures
        target(Some(entries[index].addr), entries.remove(removed)) matches Some(t)
            && entries.remove(removed)[t].addr == entries[index].addr,
        is_first_with(entries, entries[index].addr, index) ==> (target(
            Some(entries[index].addr),
            entries.remove(removed),
        ) matches Some(t) && entries.remove(removed)[t] == entries[index]),
{
    let addr = entries[index].addr;
    let left = entries.remove(removed);
    let moved = if index < removed {
        index
    } else {
        index - 1
    };
    let first = lemma_first_exists(left, addr, moved);
    if is_first_with(entries, addr, index) {
        assert forall|r: int| 0 <= r < moved implies (#[trigger] left[r]).addr != addr by {
            assert(left[r] == entries[if r < removed { r } else { r + 1 }]);
        }
        lemma_first_with(left, addr, moved);
    }
}

/// Once every connection with the selected address has been evicted, the
/// selection stands for nothing, and a unicast reports `NoSelection`.
pub proof fn lemma_unicast_after_eviction<H, F: Fn(&H, &[u8]) -> WriteOutcome>(
    entries: Seq<Entry<H>>,
    keep: Seq<bool>,
    addr: PeerAddr,
    bytes: &[u8],
    write: &F,
    sent: Result<PeerAddr, ConsoleError>,
)
    requires
        forall|j: int| 0 <= j < entries.len() && (#[trigger] entries[j]).addr == addr ==> !stays(keep, j),
        unicast(Some(addr), survivors(entries, keep), bytes, write, sent),
    ensures
        target(Some(addr), survivors(entries, keep)) is None,
        sent == Err::<PeerAddr, ConsoleError>(ConsoleError::NoSelection),
{
    let left = survivors(entries, keep);
    assert forall|r: int| 0 <= r < left.len() implies (#[trigger] left[r]).addr != addr by {
        let origin = lemma_survivor_origin(entries, keep, r);
    }
}

} // verus!
