//! Vocabulary of the system controller, as far as the SPI driver uses it.

use vstd::prelude::*;

verus! {

/// A peripheral request line that can be routed to a DMA channel.
#[derive(Clone, Copy, Debug, PartialEq, Eq, Structural)]
pub enum DmaSelect {
    Ssi0RxReq,
    Ssi0TxReq,
    Ssi1RxReq,
    Ssi1TxReq,
}

} // verus!
