//! The console: the registry and the selection as one object, and the
//! dispatcher that runs the operator's commands on it.
//!
//! Whoever shares a console between the accept loop and the operator puts it
//! behind one exclusive lock.  Every operation takes the console by
//! reference for one call and keeps nothing of it afterwards, so one lock
//! held for the length of the call is all the discipline there is.  The
//! writes that an operation makes must not block, or the lock is held for as
//! long as a peer pleases.

use vstd::prelude::*;
use crate::address::PeerAddr;
use crate::broadcast::broadcasted;
use crate::command::{parse, parse_line, Command, CommandView, ConsoleLine, LineView};
use crate::error::ConsoleError;
use crate::prober::{probed, verdicts};
use crate::registry::{lemma_first_with_is_first, listing, survivors, Entry, Registry};
use crate::selection::{unicast, Selection};
use crate::transport::{lemma_payload, payload, WriteOutcome};

verus! {

/// The registry and the selection.
pub struct Console<H> {
    pub registry: Registry<H>,
    pub selection: Selection,
}

/// What the console answers to one line.
#[derive(Debug, PartialEq, Eq)]
pub enum Reply {
    /// Every connection with its position.
    Connections(Vec<(usize, PeerAddr)>),
    /// Every address with whether its peer counts as alive.
    Health(Vec<(PeerAddr, bool)>),
    /// Every address that was probed with whether its peer counts as alive;
    /// those that do not were removed.
    Evicted(Vec<(PeerAddr, bool)>),
    /// The address that is selected now.
    Selected(PeerAddr),
    /// The bytes went to the selected connection, which has this address.
    Sent(PeerAddr),
    /// The selected address, if there is one.
    Current(Option<PeerAddr>),
    /// Every address with whether the bytes went through to it.
    Broadcast(Vec<(PeerAddr, bool)>),
    /// The command was rejected.
    Rejected(ConsoleError),
    /// The display is to be cleared.
    ClearLogs,
    /// The summary of the commands is to be printed.
    Help,
    /// The line named no command.
    Unknown,
}

/// `write` takes every handle of the table with any bytes.
pub open spec fn writable<H, F: Fn(&H, &[u8]) -> WriteOutcome>(
    entries: Seq<Entry<H>>,
    write: &F,
) -> bool {
    forall|i: int, bytes: &[u8]|
        0 <= i < entries.len() ==> #[trigger] write.requires((&entries[i].handle, bytes))
}

/// What a unicast reported, read back from the reply that was made of it.
pub open spec fn unicast_of(reply: Reply) -> Option<Result<PeerAddr, ConsoleError>> {
    match reply {
        Reply::Sent(addr) => Some(Ok(addr)),
        Reply::Rejected(error) => Some(Err(error)),
        _ => None,
    }
}

/// Running `command` with `write` on a console that holds `entries` and the
/// selection `selected` can answer `reply` and leave the console holding
/// `entries_after` and `selected_after`.
pub open spec fn executed<H, F: Fn(&H, &[u8]) -> WriteOutcome>(
    entries: Seq<Entry<H>>,
    selected: Option<PeerAddr>,
    command: CommandView,
    write: &F,
    reply: Reply,
    entries_after: Seq<Entry<H>>,
    selected_after: Option<PeerAddr>,
) -> bool {
    match command {
        CommandView::ListConnections => {
            &&& reply matches Reply::Connections(rows)
            &&& rows@ == listing(entries)
            &&& entries_after == entries
            &&& selected_after == selected
        },
        CommandView::ProbeAll => {
            &&& reply matches Reply::Health(rows)
            &&& probed(entries, write, rows@)
            &&& entries_after == entries
            &&& selected_after == selected
        },
        CommandView::EvictDead => {
            &&& reply matches Reply::Evicted(rows)
            &&& probed(entries, write, rows@)
            &&& entries_after == survivors(entries, verdicts(rows@))
            &&& selected_after == selected
        },
        CommandView::SelectByIndex(index) => {
            &&& entries_after == entries
            &&& if index < entries.len() {
                &&& reply == Reply::Selected(entries[index as int].addr)
                &&& selected_after == Some(entries[index as int].addr)
            } else {
                &&& reply == Reply::Rejected(ConsoleError::IndexOutOfRange)
                &&& selected_after == selected
            }
        },
        CommandView::SendToSelected(bytes) => {
            &&& unicast_of(reply) matches Some(sent)
            &&& unicast(selected, entries, payload(bytes), write, sent)
            &&& entries_after == entries
            &&& selected_after == selected
        },
        CommandView::ShowSelected => {
            &&& reply == Reply::Current(selected)
            &&& entries_after == entries
            &&& selected_after == selected
        },
        CommandView::Broadcast(bytes) => {
            &&& reply matches Reply::Broadcast(rows)
            &&& broadcasted(entries, payload(bytes), write, rows@)
            &&& entries_after == entries
            &&& selected_after == selected
        },
    }
}

/// Handling `line` with `write` on a console that holds `entries` and the
/// selection `selected` can answer `reply` and leave the console holding
/// `entries_after` and `selected_after`.
pub open spec fn handled<H, F: Fn(&H, &[u8]) -> WriteOutcome>(
    entries: Seq<Entry<H>>,
    selected: Option<PeerAddr>,
    line: Seq<u8>,
    write: &F,
    reply: Reply,
    entries_after: Seq<Entry<H>>,
    selected_after: Option<PeerAddr>,
) -> bool {
    match parse(line) {
        Ok(LineView::Run(command)) => executed(
            entries,
            selected,
            command,
            write,
            reply,
            entries_after,
            selected_after,
        ),
        Ok(LineView::ClearLogs) => reply == Reply::ClearLogs && entries_after == entries
            && selected_after == selected,
        Ok(LineView::Help) => reply == Reply::Help && entries_after == entries && selected_after
            == selected,
        Ok(LineView::Unknown) => reply == Reply::Unknown && entries_after == entries
            && selected_after == selected,
        Err(error) => reply == Reply::Rejected(error) && entries_after == entries && selected_after
            == selected,
    }
}

impl<H> Console<H> {
    /// A console with no connection and no selection.
    pub fn new() -> (console: Self)
        ensures
            console.registry@ == Seq::<Entry<H>>::empty(),
            console.selection@ is None,
    {
        Console { registry: Registry::new(), selection: Selection::new() }
    }

    /// Runs one command.  Every write that the command makes goes through
    /// `write`.
    pub fn execute<F>(&mut self, command: &Command, write: &F) -> (reply: Reply) where
        F: Fn(&H, &[u8]) -> WriteOutcome,

        requires
            writable(old(self).registry@, write),
        ensures
            executed(
                old(self).registry@,
                old(self).selection@,
                command@,
                write,
                reply,
                final(self).registry@,
                final(self).selection@,
            ),
    {
        match command {
            Command::ListConnections => Reply::Connections(self.registry.list()),
            Command::ProbeAll => Reply::Health(self.registry.probe_all(write)),
            Command::EvictDead => Reply::Evicted(self.registry.evict_dead(write)),
            Command::SelectByIndex(index) => match self.selection.select(&self.registry, *index) {
                Ok(addr) => Reply::Selected(addr),
                Err(error) => Reply::Rejected(error),
            },
            Command::SendToSelected(bytes) => {
                let message = bytes.as_slice();
                proof {
                    lemma_payload(message);
                    if let Some(addr) = self.selection@ {
                        lemma_first_with_is_first(self.registry@, addr);
                    }
                }
                match self.selection.send_to_selected(&self.registry, message, write) {
                    Ok(addr) => Reply::Sent(addr),
                    Err(error) => Reply::Rejected(error),
                }
            },
            Command::ShowSelected => Reply::Current(self.selection.show()),
            Command::Broadcast(bytes) => {
                let message = bytes.as_slice();
                proof {
                    lemma_payload(message);
                }
                Reply::Broadcast(self.registry.broadcast(message, write))
            },
        }
    }

    /// Reads one line of the console and does what it asks for.
    pub fn handle_line<F>(&mut self, line: &[u8], write: &F) -> (reply: Reply) where
        F: Fn(&H, &[u8]) -> WriteOutcome,

        requires
            writable(old(self).registry@, write),
        ensures
            handled(
                old(self).registry@,
                old(self).selection@,
                line@,
                write,
                reply,
                final(self).registry@,
                final(self).selection@,
            ),
    {
        match parse_line(line) {
            Ok(ConsoleLine::Run(command)) => self.execute(&command, write),
            Ok(ConsoleLine::ClearLogs) => Reply::ClearLogs,
            Ok(ConsoleLine::Help) => Reply::Help,
            Ok(ConsoleLine::Unknown) => Reply::Unknown,
            Err(error) => Reply::Rejected(error),
        }
    }
}

} // verus!
