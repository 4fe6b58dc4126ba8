//! The ordered table of accepted connections.
//!
//! Positions in the table are positional, not stable: removing an entry moves
//! every later entry down by one.  The stable identity of an entry is its
//! remote address.

use vstd::prelude::*;
use crate::address::PeerAddr;
use crate::transport::WriteOutcome;

verus! {

/// One accepted connection: the handle that writes to it, and the address of
/// its remote end.
pub struct Entry<H> {
    pub handle: H,
    pub addr: PeerAddr,
}

/// The connections, in the order in which they were accepted.
pub struct Registry<H> {
    entries: Vec<Entry<H>>,
}

impl<H> View for Registry<H> {
    type V = Seq<Entry<H>>;

    closed spec fn view(&self) -> Seq<Entry<H>> {
        self.entries@
    }
}

/// What `list` shows of a table: each position with the address found there.
pub open spec fn listing<H>(entries: Seq<Entry<H>>) -> Seq<(usize, PeerAddr)> {
    Seq::new(entries.len(), |i: int| (i as usize, entries[i].addr))
}

/// Some entry of the table has the address `addr`.
pub open spec fn holds<H>(entries: Seq<Entry<H>>, addr: PeerAddr) -> bool {
    exists|i: int| 0 <= i < entries.len() && (#[trigger] entries[i]).addr == addr
}

/// Position `i` is the first of the table whose entry has the address `addr`.
pub open spec fn is_first_with<H>(entries: Seq<Entry<H>>, addr: PeerAddr, i: int) -> bool {
    &&& 0 <= i < entries.len()
    &&& entries[i].addr == addr
    &&& forall|j: int| 0 <= j < i ==> (#[trigger] entries[j]).addr != addr
}

/// The first position whose entry has the address `addr`, if there is one.
pub open spec fn first_with<H>(entries: Seq<Entry<H>>, addr: PeerAddr) -> Option<int> {
    if holds(entries, addr) {
        Some(choose|i: int| is_first_with(entries, addr, i))
    } else {
        None
    }
}

/// The flag that decides whether position `i` stays: the one that `keep`
/// holds for it, and `true` where `keep` is too short to hold one.
pub open spec fn stays(keep: Seq<bool>, i: int) -> bool {
    i >= keep.len() || keep[i]
}

/// The entries that stay when each position is decided by `stays`, in their
/// old order.
pub open spec fn survivors<H>(entries: Seq<Entry<H>>, keep: Seq<bool>) -> Seq<Entry<H>>
    decreases entries.len(),
{
    if entries.len() == 0 {
        Seq::empty()
    } else {
        let last = entries.len() - 1;
        let front = survivors(entries.take(last), keep);
        if stays(keep, last) {
            front.push(entries[last])
        } else {
            front
        }
    }
}

/// How many of the first `i` positions stay.  This is the position to which
/// the entry at `i` moves if it stays.
pub open spec fn stay_before<H>(entries: Seq<Entry<H>>, keep: Seq<bool>, i: int) -> nat {
    survivors(entries.take(i), keep).len()
}

/// `outcomes` holds, for each entry of the table in order, something that
/// `write` can answer when it is handed that entry's handle and `bytes`.
pub open spec fn attempted<H, F: Fn(&H, &[u8]) -> WriteOutcome>(
    entries: Seq<Entry<H>>,
    bytes: &[u8],
    write: &F,
    outcomes: Seq<WriteOutcome>,
) -> bool {
    &&& outcomes.len() == entries.len()
    &&& forall|i: int|
        0 <= i < entries.len() ==> write.ensures((&entries[i].handle, bytes), #[trigger] outcomes[i])
}

/// `flags` holds, for each entry of the table in order, something that `keep`
/// can answer when it is asked about that entry.
pub open spec fn decided<H, P: Fn(&Entry<H>) -> bool>(
    entries: Seq<Entry<H>>,
    keep: P,
    flags: Seq<bool>,
) -> bool {
    &&& flags.len() == entries.len()
    &&& forall|i: int| 0 <= i < entries.len() ==> keep.ensures((&entries[i],), #[trigger] flags[i])
}

/// Inserting `batch` one entry after the other.
pub open spec fn insert_all<H>(entries: Seq<Entry<H>>, batch: Seq<Entry<H>>) -> Seq<Entry<H>>
    decreases batch.len(),
{
    if batch.len() == 0 {
        entries
    } else {
        insert_all(entries, batch.drop_last()).push(batch.last())
    }
}

impl<H> Registry<H> {
    /// An empty table.
    pub fn new() -> (registry: Self)
        ensures
            registry@ == Seq::<Entry<H>>::empty(),
    {
        Registry { entries: Vec::new() }
    }

    /// The number of connections.
    pub fn len(&self) -> (n: usize)
        ensures
            n == self@.len(),
    {
        self.entries.len()
    }

    /// Appends a connection and returns the position it was given, which is
    /// the number of connections that were there before.
    pub fn insert(&mut self, handle: H, addr: PeerAddr) -> (position: usize)
        ensures
            final(self)@ == old(self)@.push((Entry { handle, addr })),
            position == old(self)@.len(),
    {
        let position = self.entries.len();
        self.entries.push(Entry { handle, addr });
        position
    }

    /// The entry at `index`, if the table is that long.
    pub fn get(&self, index: usize) -> (entry: Option<&Entry<H>>)
        ensures
            index < self@.len() ==> entry == Some(&self@[index as int]),
            index >= self@.len() ==> entry is None,
    {
        if index < self.entries.len() {
            Some(&self.entries[index])
        } else {
            None
        }
    }

    /// The entry at a position that the table has.
    pub(crate) fn at(&self, index: usize) -> (entry: &Entry<H>)
        requires
            index < self@.len(),
        ensures
            *entry == self@[index as int],
    {
        &self.entries[index]
    }

    /// A snapshot of the table: each position with the address found there,
    /// in the order of the table.
    pub fn list(&self) -> (snapshot: Vec<(usize, PeerAddr)>)
        ensures
            snapshot@ == listing(self@),
    {
        let mut snapshot: Vec<(usize, PeerAddr)> = Vec::new();
        let mut i: usize = 0;
        while i < self.entries.len()
            invariant
                i <= self.entries@.len(),
                snapshot@ == listing(self.entries@.take(i as int)),
            decreases self.entries@.len() - i,
        {
            snapshot.push((i, self.entries[i].addr));
            i += 1;
        }
        snapshot
    }

    /// The first position whose entry has the address `addr`.
    pub fn position_of(&self, addr: PeerAddr) -> (position: Option<usize>)
        ensures
            match position {
                Some(i) => is_first_with(self@, addr, i as int),
                None => !holds(self@, addr),
            },
    {
        let mut i: usize = 0;
        while i < self.entries.len()
            invariant
                i <= self.entries@.len(),
                forall|j: int| 0 <= j < i ==> (#[trigger] self.entries@[j]).addr != addr,
            decreases self.entries@.len() - i,
        {
            if self.entries[i].addr == addr {
                return Some(i);
            }
            i += 1;
        }
        None
    }

    /// The first entry that has the address `addr`.
    pub fn find_by_address(&self, addr: PeerAddr) -> (found: Option<&Entry<H>>)
        ensures
            match found {
                Some(entry) => first_with(self@, addr) is Some && *entry == self@[
                    first_with(self@, addr).unwrap()],
                None => first_with(self@, addr) is None,
            },
    {
        match self.position_of(addr) {
            Some(i) => {
                proof {
                    lemma_first_with(self@, addr, i as int);
                }
                Some(&self.entries[i])
            },
            None => None,
        }
    }

    /// Takes the entry at `index` out of the table and hands it back; every
    /// later entry moves down by one.  Past the end nothing is removed.
    pub fn remove(&mut self, index: usize) -> (removed: Option<Entry<H>>)
        ensures
            index < old(self)@.len() ==> removed == Some(old(self)@[index as int]) && final(self)@
                == old(self)@.remove(index as int),
            index >= old(self)@.len() ==> removed is None && final(self)@ == old(self)@,
    {
        if index < self.entries.len() {
            Some(self.entries.remove(index))
        } else {
            None
        }
    }

    /// Hands `bytes` to `write` once for every entry, in the order of the
    /// table, whatever the earlier writes came to, and returns the outcomes
    /// in that order.
    pub fn attempt_all<F>(&self, bytes: &[u8], write: &F) -> (outcomes: Vec<WriteOutcome>) where
        F: Fn(&H, &[u8]) -> WriteOutcome,

        requires
            forall|i: int|
                0 <= i < self@.len() ==> write.requires((&(#[trigger] self@[i]).handle, bytes)),
        ensures
            attempted(self@, bytes, write, outcomes@),
    {
        let mut outcomes: Vec<WriteOutcome> = Vec::new();
        let mut i: usize = 0;
        assert(self@ == self.entries@);
        while i < self.entries.len()
            invariant
                i <= self.entries@.len(),
                outcomes@.len() == i,
                forall|k: int|
                    0 <= k < self.entries@.len() ==> write.requires(
                        (&(#[trigger] self.entries@[k]).handle, bytes),
                    ),
                forall|k: int|
                    0 <= k < i ==> write.ensures(
                        (&self.entries@[k].handle, bytes),
                        #[trigger] outcomes@[k],
                    ),
            decreases self.entries@.len() - i,
        {
            let outcome = write(&self.entries[i].handle, bytes);
            outcomes.push(outcome);
            i += 1;
        }
        outcomes
    }

    /// Asks `keep` about every entry, then keeps the entries for which it
    /// answered `true` and drops the others; the entries that stay keep their
    /// order.  Returns how many were dropped.
    pub fn remove_where<P>(&mut self, keep: P) -> (removed: usize) where
        P: Fn(&Entry<H>) -> bool,

        requires
            forall|i: int| 0 <= i < old(self)@.len() ==> keep.requires((&#[trigger] old(self)@[i],)),
        ensures
            exists|flags: Seq<bool>|
                decided(old(self)@, keep, flags) && final(self)@ == survivors(old(self)@, flags),
            removed == old(self)@.len() - final(self)@.len(),
    {
        let mut flags: Vec<bool> = Vec::new();
        let mut i: usize = 0;
        assert(self@ == self.entries@);
        while i < self.entries.len()
            invariant
                i <= self.entries@.len(),
                flags@.len() == i,
                self.entries@ == old(self).entries@,
                forall|k: int|
                    0 <= k < self.entries@.len() ==> keep.requires((&#[trigger] self.entries@[k],)),
                forall|k: int|
                    0 <= k < i ==> keep.ensures((&self.entries@[k],), #[trigger] flags@[k]),
            decreases self.entries@.len() - i,
        {
            let flag = keep(&self.entries[i]);
            flags.push(flag);
            i += 1;
        }
        self.retain_flagged(&flags)
    }

    /// Keeps the entries that `keep` flags `true`, position by position, and
    /// drops the others; the entries that stay keep their order.  An entry
    /// for which `keep` holds no flag stays.  Returns how many were dropped.
    pub fn retain_flagged(&mut self, keep: &Vec<bool>) -> (removed: usize)
        ensures
            final(self)@ == survivors(old(self)@, keep@),
            removed == old(self)@.len() - final(self)@.len(),
    {
        let ghost orig = self.entries@;
        let n = self.entries.len();
        let mut backwards: Vec<Entry<H>> = Vec::new();
        let mut k: usize = n;
        while k > 0
            invariant
                k <= n,
                n == orig.len(),
                self.entries@ == orig.take(k as int),
                backwards@.len() == n - k,
                forall|j: int| 0 <= j < n - k ==> backwards@[j] == orig[n - 1 - j],
            decreases k,
        {
            let entry = self.entries.pop().unwrap();
            backwards.push(entry);
            k -= 1;
        }
        let mut i: usize = 0;
        let mut removed: usize = 0;
        while i < n
            invariant
                i <= n,
                n == orig.len(),
                backwards@.len() == n - i,
                forall|j: int| 0 <= j < n - i ==> backwards@[j] == orig[n - 1 - j],
                self.entries@ == survivors(orig.take(i as int), keep@),
                removed + self.entries@.len() == i,
            decreases n - i,
        {
            let stay = i >= keep.len() || keep[i];
            proof {
                assert(orig.take(i + 1).take(i as int) == orig.take(i as int));
            }
            let entry = backwards.pop().unwrap();
            if stay {
                self.entries.push(entry);
            } else {
                removed += 1;
            }
            i += 1;
        }
        proof {
            assert(orig.take(n as int) == orig);
        }
        removed
    }
}

/// A run of inserts appends the new entries behind the old ones, in the
/// order in which they were inserted.
pub proof fn lemma_inserts_append<H>(entries: Seq<Entry<H>>, batch: Seq<Entry<H>>)
    ensures
        insert_all(entries, batch) == entries + batch,
    decreases batch.len(),
{
    if batch.len() > 0 {
        lemma_inserts_append(entries, batch.drop_last());
    }
}

/// After any run of inserts the table lists the old entries where they were
/// and the new ones behind them, in the order in which they were inserted.
pub proof fn lemma_inserts_list_in_order<H>(entries: Seq<Entry<H>>, batch: Seq<Entry<H>>)
    requires
        entries.len() + batch.len() <= usize::MAX,
    ensures
        listing(insert_all(entries, batch)).len() == entries.len() + batch.len(),
        forall|k: int|
            0 <= k < entries.len() ==> listing(insert_all(entries, batch))[k] == listing(entries)[k],
        forall|k: int|
            0 <= k < batch.len() ==> (#[trigger] listing(insert_all(entries, batch))[entries.len()
                + k]) == ((entries.len() + k) as usize, batch[k].addr),
{
    lemma_inserts_append(entries, batch);
}

/// Removing the entry at `index` leaves the entries below it where they
/// are listed, and lists every later entry one position further down.
pub proof fn lemma_remove_shifts_positions<H>(entries: Seq<Entry<H>>, index: int)
    requires
        0 <= index < entries.len() <= usize::MAX,
    ensures
        listing(entries.remove(index)).len() == entries.len() - 1,
        forall|k: int|
            0 <= k < index ==> listing(entries.remove(index))[k] == listing(entries)[k],
        forall|k: int|
            index <= k < entries.len() - 1 ==> (#[trigger] listing(entries.remove(index))[k]) == (
                k as usize,
                listing(entries)[k + 1].1,
            ),
{
}

/// A position that is the first with an address is the one that `first_with`
/// names.
pub proof fn lemma_first_with<H>(entries: Seq<Entry<H>>, addr: PeerAddr, i: int)
    requires
        is_first_with(entries, addr, i),
    ensures
        first_with(entries, addr) == Some(i),
{
    let chosen = choose|k: int| is_first_with(entries, addr, k);
    assert(chosen == i);
}

/// An address that the table holds has a first position, at or below any
/// position where it is found.
pub proof fn lemma_first_exists<H>(entries: Seq<Entry<H>>, addr: PeerAddr, i: int) -> (first: int)
    requires
        0 <= i < entries.len(),
        entries[i].addr == addr,
    ensures
        first <= i,
        is_first_with(entries, addr, first),
        first_with(entries, addr) == Some(first),
    decreases i,
{
    if exists|j: int| 0 <= j < i && (#[trigger] entries[j]).addr == addr {
        let j = choose|j: int| 0 <= j < i && (#[trigger] entries[j]).addr == addr;
        lemma_first_exists(entries, addr, j)
    } else {
        lemma_first_with(entries, addr, i);
        i
    }
}

/// The position that `first_with` names is the first with the address.
pub proof fn lemma_first_with_is_first<H>(entries: Seq<Entry<H>>, addr: PeerAddr)
    ensures
        first_with(entries, addr) matches Some(i) ==> is_first_with(entries, addr, i),
        first_with(entries, addr) is None ==> !holds(entries, addr),
{
    if holds(entries, addr) {
        let i = choose|i: int| 0 <= i < entries.len() && (#[trigger] entries[i]).addr == addr;
        let first = lemma_first_exists(entries, addr, i);
    }
}

/// The entries that stay from the first `i` positions open the sequence of
/// all the entries that stay.
pub proof fn lemma_survivors_prefix<H>(entries: Seq<Entry<H>>, keep: Seq<bool>, i: int)
    requires
        0 <= i <= entries.len(),
    ensures
        stay_before(entries, keep, i) <= survivors(entries, keep).len(),
        survivors(entries.take(i), keep) == survivors(entries, keep).take(
            stay_before(entries, keep, i) as int,
        ),
    decreases entries.len(),
{
    if i == entries.len() {
        assert(entries.take(i) == entries);
    } else {
        let last = entries.len() - 1;
        assert(entries.take(last).take(i) == entries.take(i));
        lemma_survivors_prefix(entries.take(last), keep, i);
    }
}

/// Going up the table, the number of entries that stay never falls, and it
/// rises past every position that stays.
pub proof fn lemma_stay_before_rises<H>(entries: Seq<Entry<H>>, keep: Seq<bool>, i: int, j: int)
    requires
        0 <= i <= j <= entries.len(),
    ensures
        stay_before(entries, keep, i) <= stay_before(entries, keep, j),
        i < j && stays(keep, i) ==> stay_before(entries, keep, i) < stay_before(entries, keep, j),
    decreases j - i,
{
    if i < j {
        assert(entries.take(j).take(j - 1) == entries.take(j - 1));
        lemma_stay_before_rises(entries, keep, i, j - 1);
    }
}

/// An entry that stays is found again at the position that `stay_before`
/// gives for it.
pub proof fn lemma_survivor_position<H>(entries: Seq<Entry<H>>, keep: Seq<bool>, i: int)
    requires
        0 <= i < entries.len(),
        stays(keep, i),
    ensures
        stay_before(entries, keep, i) < survivors(entries, keep).len(),
        survivors(entries, keep)[stay_before(entries, keep, i) as int] == entries[i],
{
    let upto = entries.take(i + 1);
    assert(upto.take(i) == entries.take(i));
    lemma_survivors_prefix(entries, keep, i + 1);
    let r = stay_before(entries, keep, i) as int;
    assert(survivors(entries, keep).take(stay_before(entries, keep, i + 1) as int)[r] == entries[i]);
}

/// Every entry that is left stood at a position that stays, and has moved
/// down by the number of entries dropped below it.
pub proof fn lemma_survivor_origin<H>(entries: Seq<Entry<H>>, keep: Seq<bool>, r: int) -> (i: int)
    requires
        0 <= r < survivors(entries, keep).len(),
    ensures
        0 <= i < entries.len(),
        stays(keep, i),
        stay_before(entries, keep, i) == r,
        survivors(entries, keep)[r] == entries[i],
    decreases entries.len(),
{
    let last = entries.len() - 1;
    let front = survivors(entries.take(last), keep);
    if r < front.len() {
        let i = lemma_survivor_origin(entries.take(last), keep, r);
        assert(entries.take(last).take(i) == entries.take(i));
        i
    } else {
        last
    }
}

/// The entries that are left stand in the order in which they stood before.
pub proof fn lemma_survivors_keep_order<H>(
    entries: Seq<Entry<H>>,
    keep: Seq<bool>,
    r1: int,
    r2: int,
) -> (origins: (int, int))
    requires
        0 <= r1 < r2 < survivors(entries, keep).len(),
    ensures
        0 <= origins.0 < origins.1 < entries.len(),
        survivors(entries, keep)[r1] == entries[origins.0],
        survivors(entries, keep)[r2] == entries[origins.1],
{
    let i1 = lemma_survivor_origin(entries, keep, r1);
    let i2 = lemma_survivor_origin(entries, keep, r2);
    if i2 <= i1 {
        lemma_stay_before_rises(entries, keep, i2, i1);
    }
    (i1, i2)
}

} // verus!
