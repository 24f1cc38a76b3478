//! Vocabulary of the DMA controller, as far as the SPI driver programs it.

use vstd::prelude::*;

verus! {

/// One of the six channels of the DMA controller.
#[derive(Clone, Copy, Debug, PartialEq, Eq, Structural)]
pub enum DmacChannel {
    Channel0,
    Channel1,
    Channel2,
    Channel3,
    Channel4,
    Channel5,
}

/// What happens to an address after each element moved.
#[derive(Clone, Copy, Debug, PartialEq, Eq, Structural)]
pub enum Inc {
    /// The address moves on to the next element.
    Increment,
    /// The address stays where it is.
    NoChange,
}

/// Width of one element moved.
#[derive(Clone, Copy, Debug, PartialEq, Eq, Structural)]
pub enum TrWidth {
    Width8,
    Width16,
    Width32,
    Width64,
    Width128,
    Width256,
    Width512,
}

/// Number of elements moved in one burst.
#[derive(Clone, Copy, Debug, PartialEq, Eq, Structural)]
pub enum Msize {
    Length1,
    Length4,
    Length8,
    Length16,
    Length32,
    Length64,
    Length128,
    Length256,
}

/// One end of a block transfer. The driver never sees an address: it names
/// the end, and the platform supplies where it lies.
#[derive(Clone, Copy, Debug, PartialEq, Eq, Structural)]
pub enum Endpoint {
    /// The caller's buffer in memory.
    Buffer,
    /// The data register of the SPI controller.
    DataRegister,
}

} // verus!
