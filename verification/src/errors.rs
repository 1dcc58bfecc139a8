//! Conditions under which an inbound event is rejected.
//!
//! Every rejection is local: the event is dropped, the addressed port (and
//! every other port) is left exactly as it was, and the condition is
//! reported to the caller.  None of these is fatal to the UI instance.

use vstd::prelude::*;

verus! {

/// Why `port_event` refused an inbound event.
#[derive(Clone, Copy, Debug, PartialEq, Eq, Structural)]
pub enum DispatchError {
    /// The event named an index that is not in the port directory.
    UnknownPortIndex,
    /// A scalar event carried a payload whose length is not exactly the
    /// four bytes of one scalar value.
    SizeMismatch,
    /// A typed event carried a tag that differs from the fixed tag of the
    /// atom port it addressed.
    TypeTagMismatch,
    /// The tag and the port kind disagree: a nonzero tag addressed a
    /// control port, or a zero tag addressed an atom port.
    ProtocolMismatch,
}

} // verus!
