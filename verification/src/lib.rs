//! Receive-side reassembly of CSP packets carried as CFP fragments over a
//! small-MTU bus (CAN, at most 8 payload bytes per frame).
//!
//! Each incoming frame carries a bit-packed arbitration field holding the
//! source and destination addresses, the fragment kind (Begin or More), the
//! remaining-fragment count and a connection id.  The [`rx`] module classifies
//! every frame, binds it to an in-progress reassembly buffer from a fixed
//! [`pool`], validates it against the buffer's expected state, accumulates its
//! payload bytes and, on completion, hands the finished packet to an upstream
//! delivery queue.  The [`codec`] module packs and unpacks the arbitration
//! field, and the [`laws`] module states and proves the protocol-level
//! properties of the state machine.

pub mod codec;
pub mod csp_structs;
pub mod laws;
pub mod pool;
pub mod rx;

use vstd::prelude::*;

verus! {

/// Final resting point of a node on an unrecoverable fault.  A bare-metal
/// build would park the processor here and take no further frames; the
/// library's functions are verified never to panic, so nothing in this
/// crate can reach it.
pub fn panic_handler() {
}

} // verus!
