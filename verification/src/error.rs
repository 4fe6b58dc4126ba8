//! The failures that the console reports.

use vstd::prelude::*;

verus! {

/// Every failure is local to the one operation that met it.
#[derive(Clone, Copy, Debug, PartialEq, Eq, Structural)]
pub enum ConsoleError {
    /// The listening socket could not be bound.
    BindFailure,
    /// A position past the end of the table was selected.
    IndexOutOfRange,
    /// Bytes were to go to the selected connection, and no connection of the
    /// table has the selected address, or none was ever selected.
    NoSelection,
    /// A write to one connection did not go through.
    WriteFailure,
    /// The position given with a command is not a number.
    ParseFailure,
}

} // verus!
