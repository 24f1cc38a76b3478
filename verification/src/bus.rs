//! The accesses the driver asks of its platform.
//!
//! The register block, the clock gates and the DMA controller are not owned by
//! this crate. The driver names each access as a [`Command`]; the platform
//! performs it and answers with one word: the value read, or anything at all
//! for an access that reads nothing.

use vstd::prelude::*;
use crate::dmac::{DmacChannel, Endpoint, Inc, Msize, TrWidth};
use crate::spi::SpiNumber;
use crate::sysctl::DmaSelect;

verus! {

/// Registers of a controller that are read or written as whole words.
#[derive(Clone, Copy, Debug, PartialEq, Eq, Structural)]
pub enum Register {
    /// Number of frames to receive, minus one.
    Ctrlr1,
    /// Controller enable.
    Ssienr,
    /// Slave select lines, one bit each.
    Ser,
    /// Clock divider.
    Baudr,
    /// Fill level of the transmit FIFO.
    Txflr,
    /// Fill level of the receive FIFO.
    Rxflr,
    /// Status.
    Sr,
    /// Interrupt mask.
    Imr,
    /// Data: a write pushes to the transmit FIFO, a read pops the receive FIFO.
    Dr,
    /// DMA request enables.
    Dmacr,
    /// Transmit FIFO level at which a DMA request is raised.
    Dmatdlr,
    /// Receive FIFO level at which a DMA request is raised.
    Dmardlr,
    /// Byte order.
    Endian,
}

/// Clock polarity and phase.
#[derive(Clone, Copy, Debug, PartialEq, Eq, Structural)]
pub enum WorkMode {
    Mode0,
    Mode1,
    Mode2,
    Mode3,
}

/// Number of data lines a frame travels on.
#[derive(Clone, Copy, Debug, PartialEq, Eq, Structural)]
pub enum FrameFormat {
    Standard,
    Dual,
    Quad,
}

/// Direction of a transfer.
#[derive(Clone, Copy, Debug, PartialEq, Eq, Structural)]
pub enum Tmod {
    /// Transmit and receive at once.
    TransRecv,
    /// Transmit only.
    Trans,
    /// Receive only.
    Recv,
    /// End-to-end diagnostic read.
    Eerom,
}

/// How instruction and address are put on the wire.
#[derive(Clone, Copy, Debug, PartialEq, Eq, Structural)]
pub enum Aitm {
    /// Both in standard format.
    Standard,
    /// Instruction in standard format, address in the frame format.
    AddrStandard,
    /// Both in the frame format.
    AsFrameFormat,
}

/// One access to the hardware.
#[derive(Clone, Copy, Debug, PartialEq, Eq, Structural)]
pub enum Command {
    /// Write `value` to `register`.
    Write { register: Register, value: u32 },
    /// Read `register`; the answer is its value.
    Read { register: Register },
    /// Write the four fields of the first control register.
    SetCtrlr0 { work_mode: WorkMode, tmod: Tmod, frame_format: FrameFormat, data_length: u8 },
    /// Write the four fields of the second control register.
    SetSpiCtrlr0 { aitm: Aitm, addr_length: u8, inst_length: u8, wait_cycles: u8 },
    /// Open the clock gate of the bus the controllers sit on.
    EnableBusClock,
    /// Open the clock gate of a controller.
    EnableClock { number: SpiNumber },
    /// Read the clock gate of a controller; the answer is zero when it is shut.
    ReadClockEnable { number: SpiNumber },
    /// Route a request line to a DMA channel.
    SelectDma { channel: DmacChannel, select: DmaSelect },
    /// Program a DMA channel for one block.
    SetSingleMode {
        channel: DmacChannel,
        src: Endpoint,
        dst: Endpoint,
        src_inc: Inc,
        dst_inc: Inc,
        width: TrWidth,
        burst: Msize,
        count: u32,
    },
    /// Return only when the DMA channel has moved its block.
    WaitDone { channel: DmacChannel },
}

impl Command {
    /// The value `register` holds once this access is done, if it held
    /// `before`.
    pub open spec fn effect(self, register: Register, before: u32) -> u32 {
        match self {
            Command::Write { register: written, value } => if written == register {
                value
            } else {
                before
            },
            _ => before,
        }
    }

    /// Whether this access writes `register`, whatever the value.
    pub open spec fn writes_to(self, register: Register) -> bool {
        self matches Command::Write { register: written, .. } && written == register
    }

    /// Whether this access is addressed to the DMA controller, or routes a
    /// request line to it.
    pub open spec fn is_dma(self) -> bool {
        self is SelectDma || self is SetSingleMode || self is WaitDone
    }

    /// Whether this access looks at the controller while a transfer runs: a
    /// read of one of its registers, or the wait for a DMA channel.
    pub open spec fn observes(self) -> bool {
        self is Read || self is WaitDone
    }
}

} // verus!
