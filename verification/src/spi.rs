//! The SPI driver.
//!
//! A [`Spi`] handle owns the token of one controller and remembers which
//! slave line the next transfer is to assert. A transfer uses the choice up:
//! once one is begun, no line is chosen, and the next transfer needs a choice
//! of its own. Each operation hands back a [`Transaction`]; what that
//! transaction will ask of the hardware is told by the plans in this module,
//! one spec function for each operation.

use vstd::prelude::*;
use crate::bus::{Command, Register};
use crate::dmac::{DmacChannel, Endpoint, Inc, Msize, TrWidth};
use crate::sysctl::DmaSelect;
use crate::time::Hertz;
use crate::transaction::{Op, Transaction, TransactionView};

pub use crate::bus::{Aitm, FrameFormat, Tmod, WorkMode};

verus! {

/// Which of the two controllers a handle drives.
#[derive(Clone, Copy, Debug, PartialEq, Eq, Structural)]
pub enum SpiNumber {
    Spi0,
    Spi1,
}

/// Why a transfer was refused.
#[derive(Clone, Copy, Debug, PartialEq, Eq, Structural)]
pub enum SpiError {
    /// No slave line was chosen.
    NoSlaveSelect,
    /// The clock gate of the controller is shut: no clock rate was ever set.
    NoClockRateSpecified,
    /// A stream of words was asked for that nothing could own.
    WillCauseMemoryError,
}

/// The token of the first controller. Whoever holds it may drive that
/// controller; handing out one token only is the platform's business.
#[derive(Debug)]
pub struct SPI0;

/// The token of the second controller.
#[derive(Debug)]
pub struct SPI1;

/// A token of one of the two controllers, which share one register layout and
/// differ in their clock gate and their DMA request lines.
pub trait Spi01 {
    /// The controller this token stands for.
    spec fn spec_number() -> SpiNumber;

    /// The controller this token stands for.
    fn number() -> (number: SpiNumber)
        ensures
            number == Self::spec_number(),
    ;
}

impl Spi01 for SPI0 {
    open spec fn spec_number() -> SpiNumber {
        SpiNumber::Spi0
    }

    fn number() -> (number: SpiNumber) {
        SpiNumber::Spi0
    }
}

impl Spi01 for SPI1 {
    open spec fn spec_number() -> SpiNumber {
        SpiNumber::Spi1
    }

    fn number() -> (number: SpiNumber) {
        SpiNumber::Spi1
    }
}

/// The driver of one controller.
#[derive(Debug)]
pub struct Spi<SPI> {
    spi: SPI,
    slave_select: Option<u8>,
}

/// The highest slave line there is.
pub const MAX_SLAVE_SELECT: u8 = 3;

/// A choice of slave line that a handle accepts: none, or one of the four.
pub open spec fn selectable(ss: Option<u8>) -> bool {
    ss matches Some(lane) ==> lane <= MAX_SLAVE_SELECT
}

impl<SPI> Spi<SPI> {
    #[verifier::type_invariant]
    spec fn lane_exists(self) -> bool {
        selectable(self.slave_select)
    }

    /// The token the handle owns.
    pub closed spec fn token(self) -> SPI {
        self.spi
    }

    /// The slave line the next transfer asserts, if one is chosen.
    pub closed spec fn selection(self) -> Option<u8> {
        self.slave_select
    }

    /// The slave line the next transfer asserts, if one is chosen.
    pub fn slave_select(&self) -> (ss: Option<u8>)
        ensures
            ss == self.selection(),
            selectable(ss),
    {
        proof {
            use_type_invariant(self);
        }
        self.slave_select
    }

    /// Set to `None` to deselect and set to `Some([0-3])` before begin
    /// transferring. Nothing is written: the line is asserted by the next
    /// transfer, and for its duration only.
    pub fn set_slave_select(&mut self, ss: Option<u8>)
        requires
            selectable(ss),
        ensures
            final(self).selection() == ss,
            final(self).token() == old(self).token(),
    {
        self.slave_select = ss;
    }

    /// The choice of slave line, taken out of the handle for the transfer
    /// that begins: no line is chosen afterwards.
    fn take_slave_select(&mut self) -> (ss: Option<u8>)
        ensures
            ss == old(self).selection(),
            selectable(ss),
            final(self).selection() == None::<u8>,
            final(self).token() == old(self).token(),
    {
        proof {
            use_type_invariant(&*self);
        }
        let ss = self.slave_select;
        self.slave_select = None;
        ss
    }
}

/// A write of a whole register, as a step of a plan.
pub open spec fn write_to(register: Register, value: u32) -> Op {
    Op::Issue(Command::Write { register, value })
}

/// What `constrain` asks of the hardware: the clock of the bus that both
/// controllers sit on.
pub open spec fn constrain_plan() -> Seq<Op> {
    seq![Op::Issue(Command::EnableBusClock)]
}

/// Making a driver out of a token.
pub trait SpiExt: Sized {
    /// Take the token and give the driver of its controller, with no slave
    /// line chosen, and the transaction that brings the bus clock up.
    fn constrain(self) -> (made: (Spi<Self>, Transaction))
        ensures
            made.0.token() == self,
            made.0.selection() == None::<u8>,
            made.1@ == TransactionView::start(constrain_plan()),
    ;
}

impl<SPI: Spi01> SpiExt for SPI {
    fn constrain(self) -> (made: (Spi<Self>, Transaction)) {
        let plan = vec![Op::Issue(Command::EnableBusClock)];
        assert(plan@ =~= constrain_plan());
        (Spi { spi: self, slave_select: None }, Transaction::new(plan))
    }
}

/// The configurations the controller can be given: a word of 4 to 32 bits,
/// fewer than 32 wait cycles, an instruction of 0, 4, 8 or 16 bits, and an
/// address of a multiple of 4 bits, 60 at most.
pub open spec fn configuration_valid(
    data_length: u8,
    instruction_length: u8,
    address_length: u8,
    wait_cycles: u8,
) -> bool {
    &&& 4 <= data_length <= 32
    &&& wait_cycles < 32
    &&& (instruction_length == 0 || instruction_length == 4 || instruction_length == 8
        || instruction_length == 16)
    &&& address_length % 4 == 0
    &&& address_length <= 60
}

/// The two-bit code of an instruction length: 0, 4, 8 and 16 bits are coded as
/// 0, 1, 2 and 3.
pub open spec fn instruction_code(instruction_length: u8) -> u8 {
    if instruction_length == 0 {
        0
    } else if instruction_length == 4 {
        1
    } else if instruction_length == 8 {
        2
    } else {
        3
    }
}

/// What `configure` asks of the hardware, in this order: interrupts masked,
/// DMA requests off, the two DMA thresholds at their defaults, every slave
/// line released, the controller disabled; then the fields of the two control
/// registers and the byte order. The word width is stored less one, the
/// address length in units of four bits, the instruction length by its code.
pub open spec fn configure_plan(
    work_mode: WorkMode,
    frame_format: FrameFormat,
    data_length: u8,
    endian: u32,
    instruction_length: u8,
    address_length: u8,
    wait_cycles: u8,
    instruction_address_trans_mode: Aitm,
    tmod: Tmod,
) -> Seq<Op> {
    seq![
        write_to(Register::Imr, 0x00),
        write_to(Register::Dmacr, 0x00),
        write_to(Register::Dmatdlr, 0x10),
        write_to(Register::Dmardlr, 0x00),
        write_to(Register::Ser, 0x00),
        write_to(Register::Ssienr, 0x00),
        Op::Issue(
            Command::SetCtrlr0 {
                work_mode,
                tmod,
                frame_format,
                data_length: (data_length - 1) as u8,
            },
        ),
        Op::Issue(
            Command::SetSpiCtrlr0 {
                aitm: instruction_address_trans_mode,
                addr_length: address_length / 4,
                inst_length: instruction_code(instruction_length),
                wait_cycles,
            },
        ),
        write_to(Register::Endian, endian),
    ]
}

/// The divider for a clock of `spi_clk` out of an input of `freq_in`: their
/// quotient, held within what the divider register takes, 2 to 65534.
pub open spec fn clock_divisor(spi_clk: Hertz, freq_in: Hertz) -> u32
    recommends
        spi_clk.0 != 0,
{
    let quotient = freq_in.0 / spi_clk.0;
    if quotient < 2 {
        2
    } else if quotient > 65534 {
        65534
    } else {
        quotient
    }
}

/// The clock rate that the divider for `spi_clk` gives.
pub open spec fn clock_rate(spi_clk: Hertz, freq_in: Hertz) -> Hertz
    recommends
        spi_clk.0 != 0,
{
    Hertz(freq_in.0 / clock_divisor(spi_clk, freq_in))
}

/// What `set_clk_rate` asks of the hardware: the clock gate of the controller
/// opened, then the divider written.
pub open spec fn clock_plan(number: SpiNumber, divisor: u32) -> Seq<Op> {
    seq![Op::Issue(Command::EnableClock { number }), write_to(Register::Baudr, divisor)]
}

/// The word pushed to clock a word in: all ones.
pub const DUMMY_WORD: u32 = 0xffff_ffff;

/// The width of the words of a single-word transfer.
#[derive(Clone, Copy, Debug, PartialEq, Eq, Structural)]
pub enum WordWidth {
    Bits8,
    Bits16,
    Bits32,
}

impl WordWidth {
    /// The largest word of this width.
    pub open spec fn spec_limit(self) -> u32 {
        match self {
            WordWidth::Bits8 => 0xff,
            WordWidth::Bits16 => 0xffff,
            WordWidth::Bits32 => 0xffff_ffff,
        }
    }

    /// The largest word of this width.
    pub fn limit(self) -> (limit: u32)
        ensures
            limit == self.spec_limit(),
    {
        match self {
            WordWidth::Bits8 => 0xff,
            WordWidth::Bits16 => 0xffff,
            WordWidth::Bits32 => 0xffff_ffff,
        }
    }
}

/// What a transfer moves.
pub enum Transfer {
    /// These words out, through the transmit FIFO.
    Send(Seq<u32>),
    /// One word out, through the transmit FIFO.
    SendWord(u32),
    /// One word in, through the receive FIFO, held down to the limit.
    ReadWord(u32),
    /// `count` words out of the caller's buffer, moved by a DMA channel.
    SendDma { channel: DmacChannel, count: u32 },
    /// `count` words into the caller's buffer, moved by a DMA channel.
    RecvDma { channel: DmacChannel, count: u32 },
}

/// The bits of the slave select register that assert `lane` alone.
pub open spec fn select_bits(lane: u8) -> u32 {
    1u32 << lane
}

/// The request line on which a controller asks for words to transmit.
pub open spec fn tx_request(number: SpiNumber) -> DmaSelect {
    match number {
        SpiNumber::Spi0 => DmaSelect::Ssi0TxReq,
        SpiNumber::Spi1 => DmaSelect::Ssi1TxReq,
    }
}

/// The request line on which a controller offers the words it received.
pub open spec fn rx_request(number: SpiNumber) -> DmaSelect {
    match number {
        SpiNumber::Spi0 => DmaSelect::Ssi0RxReq,
        SpiNumber::Spi1 => DmaSelect::Ssi1RxReq,
    }
}

/// One push for each word, in order.
pub open spec fn pushes(words: Seq<u32>) -> Seq<Op> {
    Seq::new(words.len(), |i: int| Op::Push(words[i]))
}

/// The slave line asserted and the controller enabled.
pub open spec fn assert_and_enable(lane: u8) -> Seq<Op> {
    seq![write_to(Register::Ser, select_bits(lane)), write_to(Register::Ssienr, 0x01)]
}

/// How every transfer ends: the slave lines released, then the controller
/// disabled.
pub open spec fn release() -> Seq<Op> {
    seq![write_to(Register::Ser, 0x00), write_to(Register::Ssienr, 0x00)]
}

/// The steps that move the data of a transfer on slave line `lane`, between
/// the look at the clock gate and the release.
///
/// Words sent through the FIFO: line asserted, controller enabled, each word
/// pushed when there is room for it, then the wait for the wire to fall idle.
///
/// A word read: line asserted, controller enabled, a count of one frame, the
/// dummy word that drives the clock, the wait for the word, the word popped.
///
/// Words sent by DMA: the transmit request of the controller switched on, the
/// controller enabled, its request line routed to the channel, the channel
/// programmed to walk through the buffer into the data register, four words a
/// burst; then the line asserted, the wait for the channel, and the wait for
/// the wire, since the channel is done when the FIFO has the words, not when
/// they are out.
///
/// Words received by DMA: the count of frames less one, then as for sending,
/// with the receive request, the channel walking from the data register
/// through the buffer one word a burst, and the dummy word ahead of the line.
pub open spec fn transfer_steps(number: SpiNumber, lane: u8, transfer: Transfer) -> Seq<Op> {
    match transfer {
        Transfer::Send(words) => assert_and_enable(lane) + pushes(words) + seq![Op::AwaitIdle],
        Transfer::SendWord(word) => assert_and_enable(lane) + seq![Op::Push(word), Op::AwaitIdle],
        Transfer::ReadWord(limit) => assert_and_enable(lane) + seq![
            write_to(Register::Ctrlr1, 0x00),
            write_to(Register::Dr, DUMMY_WORD),
            Op::AwaitReceive,
            Op::Pop(limit),
        ],
        Transfer::SendDma { channel, count } => seq![
            write_to(Register::Dmacr, 0x2),
            write_to(Register::Ssienr, 0x01),
            Op::Issue(Command::SelectDma { channel, select: tx_request(number) }),
            Op::Issue(
                Command::SetSingleMode {
                    channel,
                    src: Endpoint::Buffer,
                    dst: Endpoint::DataRegister,
                    src_inc: Inc::Increment,
                    dst_inc: Inc::NoChange,
                    width: TrWidth::Width32,
                    burst: Msize::Length4,
                    count,
                },
            ),
            write_to(Register::Ser, select_bits(lane)),
            Op::Issue(Command::WaitDone { channel }),
            Op::AwaitIdle,
        ],
        Transfer::RecvDma { channel, count } => seq![
            write_to(Register::Ctrlr1, (count - 1) as u32),
            write_to(Register::Dmacr, 0x3),
            write_to(Register::Ssienr, 0x01),
            Op::Issue(Command::SelectDma { channel, select: rx_request(number) }),
            Op::Issue(
                Command::SetSingleMode {
                    channel,
                    src: Endpoint::DataRegister,
                    dst: Endpoint::Buffer,
                    src_inc: Inc::NoChange,
                    dst_inc: Inc::Increment,
                    width: TrWidth::Width32,
                    burst: Msize::Length1,
                    count,
                },
            ),
            write_to(Register::Dr, DUMMY_WORD),
            write_to(Register::Ser, select_bits(lane)),
            Op::Issue(Command::WaitDone { channel }),
            Op::AwaitIdle,
        ],
    }
}

/// The whole plan of a transfer on slave line `lane`: the clock gate is looked
/// at before anything is written, and the release comes last.
pub open spec fn transfer_plan(number: SpiNumber, lane: u8, transfer: Transfer) -> Seq<Op> {
    seq![Op::RequireClock(number)] + transfer_steps(number, lane, transfer) + release()
}

/// A transfer that moves nothing: a receive into an empty buffer.
pub open spec fn moves_nothing(transfer: Transfer) -> bool {
    transfer matches Transfer::RecvDma { count, .. } && count == 0
}

/// The plan of a transfer that moves nothing: the look at the clock gate, and
/// no more.
pub open spec fn idle_plan(number: SpiNumber) -> Seq<Op> {
    seq![Op::RequireClock(number)]
}

/// The transaction that a handle of controller `number`, with `select` as its
/// choice of slave line, makes of a transfer. The choice is looked at first:
/// with no line chosen the transfer is refused with `NoSlaveSelect`. Then
/// comes the clock gate, at the head of every plan. A transfer that moves
/// nothing ends there; any other follows its plan.
pub open spec fn transaction_for(
    number: SpiNumber,
    select: Option<u8>,
    transfer: Transfer,
) -> TransactionView {
    match select {
        None => TransactionView::refused(SpiError::NoSlaveSelect),
        Some(lane) => if moves_nothing(transfer) {
            TransactionView::start(idle_plan(number))
        } else {
            TransactionView::start(transfer_plan(number, lane, transfer))
        },
    }
}

/// A write of a whole register, as a step of a plan.
fn write_op(register: Register, value: u32) -> (op: Op)
    ensures
        op == write_to(register, value),
{
    Op::Issue(Command::Write { register, value })
}

/// Whether the controller can be given this configuration.
pub fn check_configuration(
    data_length: u8,
    instruction_length: u8,
    address_length: u8,
    wait_cycles: u8,
) -> (valid: bool)
    ensures
        valid == configuration_valid(data_length, instruction_length, address_length, wait_cycles),
{
    data_length >= 4 && data_length <= 32 && wait_cycles < 32 && (instruction_length == 0
        || instruction_length == 4 || instruction_length == 8 || instruction_length == 16)
        && address_length % 4 == 0 && address_length <= 60
}

impl<SPI: Spi01> Spi<SPI> {
    /// Configure the SPI before transferring. The controller is left disabled:
    /// each transfer enables it for itself.
    pub fn configure(
        &mut self,
        work_mode: WorkMode,
        frame_format: FrameFormat,
        data_length: u8,
        endian: u32,
        instruction_length: u8,
        address_length: u8,
        wait_cycles: u8,
        instruction_address_trans_mode: Aitm,
        tmod: Tmod,
    ) -> (transaction: Transaction)
        requires
            configuration_valid(data_length, instruction_length, address_length, wait_cycles),
        ensures
            *final(self) == *old(self),
            transaction@ == TransactionView::start(
                configure_plan(
                    work_mode,
                    frame_format,
                    data_length,
                    endian,
                    instruction_length,
                    address_length,
                    wait_cycles,
                    instruction_address_trans_mode,
                    tmod,
                ),
            ),
    {
        let inst_l: u8 = if instruction_length == 0 {
            0
        } else if instruction_length == 4 {
            1
        } else if instruction_length == 8 {
            2
        } else {
            3
        };
        let addr_l: u8 = address_length / 4;
        let plan = vec![
            write_op(Register::Imr, 0x00),
            write_op(Register::Dmacr, 0x00),
            write_op(Register::Dmatdlr, 0x10),
            write_op(Register::Dmardlr, 0x00),
            write_op(Register::Ser, 0x00),
            write_op(Register::Ssienr, 0x00),
            Op::Issue(
                Command::SetCtrlr0 { work_mode, tmod, frame_format, data_length: data_length - 1 },
            ),
            Op::Issue(
                Command::SetSpiCtrlr0 {
                    aitm: instruction_address_trans_mode,
                    addr_length: addr_l,
                    inst_length: inst_l,
                    wait_cycles,
                },
            ),
            write_op(Register::Endian, endian),
        ];
        assert(plan@ =~= configure_plan(
            work_mode,
            frame_format,
            data_length,
            endian,
            instruction_length,
            address_length,
            wait_cycles,
            instruction_address_trans_mode,
            tmod,
        ));
        Transaction::new(plan)
    }

    /// Must call this function to set the clock rate of SPI before begin
    /// transferring, otherwise `SpiError::NoClockRateSpecified`. The rate must
    /// be sufficiently slower than CPU clock. Gives the rate that the divider
    /// really yields, and the transaction that sets it.
    pub fn set_clk_rate(&mut self, spi_clk: Hertz, freq_in: Hertz) -> (set: (Hertz, Transaction))
        requires
            spi_clk.0 != 0,
        ensures
            *final(self) == *old(self),
            2 <= clock_divisor(spi_clk, freq_in) <= 65534,
            set.0.0 == freq_in.0 / clock_divisor(spi_clk, freq_in),
            set.0 == clock_rate(spi_clk, freq_in),
            set.1@ == TransactionView::start(
                clock_plan(SPI::spec_number(), clock_divisor(spi_clk, freq_in)),
            ),
    {
        let quotient: u32 = freq_in.0 / spi_clk.0;
        let baudrate: u32 = if quotient < 2 {
            2
        } else if quotient > 65534 {
            65534
        } else {
            quotient
        };
        let plan = vec![
            Op::Issue(Command::EnableClock { number: SPI::number() }),
            write_op(Register::Baudr, baudrate),
        ];
        assert(plan@ =~= clock_plan(SPI::spec_number(), baudrate));
        (Hertz(freq_in.0 / baudrate), Transaction::new(plan))
    }
}

/// The bits of the slave select register that assert `lane` alone.
fn select_mask(lane: u8) -> (bits: u32)
    requires
        lane <= MAX_SLAVE_SELECT,
    ensures
        bits == select_bits(lane),
{
    1u32 << lane
}

/// The request line on which a controller asks for words to transmit.
fn tx_request_of(number: SpiNumber) -> (select: DmaSelect)
    ensures
        select == tx_request(number),
{
    match number {
        SpiNumber::Spi0 => DmaSelect::Ssi0TxReq,
        SpiNumber::Spi1 => DmaSelect::Ssi1TxReq,
    }
}

/// The request line on which a controller offers the words it received.
fn rx_request_of(number: SpiNumber) -> (select: DmaSelect)
    ensures
        select == rx_request(number),
{
    match number {
        SpiNumber::Spi0 => DmaSelect::Ssi0RxReq,
        SpiNumber::Spi1 => DmaSelect::Ssi1RxReq,
    }
}

impl<SPI: Spi01> Spi<SPI> {
    /// Receive `len` words into the caller's buffer by direct memory access.
    /// With `len` zero nothing is moved, but a slave line has to be chosen and
    /// the clock gate open all the same. Uses the choice of slave line up.
    pub fn recv_data_dma(&mut self, channel: DmacChannel, len: u32) -> (transaction: Transaction)
        ensures
            final(self).selection() == None::<u8>,
            final(self).token() == old(self).token(),
            transaction@ == transaction_for(
                SPI::spec_number(),
                old(self).selection(),
                Transfer::RecvDma { channel, count: len },
            ),
    {
        let lane = match self.take_slave_select() {
            None => {
                return Transaction::refused(SpiError::NoSlaveSelect);
            },
            Some(lane) => lane,
        };
        if len == 0 {
            let plan = vec![Op::RequireClock(SPI::number())];
            assert(plan@ =~= idle_plan(SPI::spec_number()));
            return Transaction::new(plan);
        }
        let plan = vec![
            Op::RequireClock(SPI::number()),
            write_op(Register::Ctrlr1, len - 1),
            write_op(Register::Dmacr, 0x3),
            write_op(Register::Ssienr, 0x01),
            Op::Issue(Command::SelectDma { channel, select: rx_request_of(SPI::number()) }),
            Op::Issue(
                Command::SetSingleMode {
                    channel,
                    src: Endpoint::DataRegister,
                    dst: Endpoint::Buffer,
                    src_inc: Inc::NoChange,
                    dst_inc: Inc::Increment,
                    width: TrWidth::Width32,
                    burst: Msize::Length1,
                    count: len,
                },
            ),
            write_op(Register::Dr, DUMMY_WORD),
            write_op(Register::Ser, select_mask(lane)),
            Op::Issue(Command::WaitDone { channel }),
            Op::AwaitIdle,
            write_op(Register::Ser, 0x00),
            write_op(Register::Ssienr, 0x00),
        ];
        assert(plan@ =~= transfer_plan(
            SPI::spec_number(),
            lane,
            Transfer::RecvDma { channel, count: len },
        ));
        Transaction::new(plan)
    }

    /// Using direct memory access to transfer `len` words from the caller's
    /// buffer to SPI. Uses the choice of slave line up.
    pub fn send_data_dma(&mut self, channel: DmacChannel, len: u32) -> (transaction: Transaction)
        ensures
            final(self).selection() == None::<u8>,
            final(self).token() == old(self).token(),
            transaction@ == transaction_for(
                SPI::spec_number(),
                old(self).selection(),
                Transfer::SendDma { channel, count: len },
            ),
    {
        let lane = match self.take_slave_select() {
            None => {
                return Transaction::refused(SpiError::NoSlaveSelect);
            },
            Some(lane) => lane,
        };
        let plan = vec![
            Op::RequireClock(SPI::number()),
            write_op(Register::Dmacr, 0x2),
            write_op(Register::Ssienr, 0x01),
            Op::Issue(Command::SelectDma { channel, select: tx_request_of(SPI::number()) }),
            Op::Issue(
                Command::SetSingleMode {
                    channel,
                    src: Endpoint::Buffer,
                    dst: Endpoint::DataRegister,
                    src_inc: Inc::Increment,
                    dst_inc: Inc::NoChange,
                    width: TrWidth::Width32,
                    burst: Msize::Length4,
                    count: len,
                },
            ),
            write_op(Register::Ser, select_mask(lane)),
            Op::Issue(Command::WaitDone { channel }),
            Op::AwaitIdle,
            write_op(Register::Ser, 0x00),
            write_op(Register::Ssienr, 0x00),
        ];
        assert(plan@ =~= transfer_plan(
            SPI::spec_number(),
            lane,
            Transfer::SendDma { channel, count: len },
        ));
        Transaction::new(plan)
    }

    /// Send the words of `tx` through the transmit FIFO, pushing each when
    /// there is room for it. Uses the choice of slave line up.
    pub fn try_send(&mut self, tx: &[u32]) -> (transaction: Transaction)
        ensures
            final(self).selection() == None::<u8>,
            final(self).token() == old(self).token(),
            transaction@ == transaction_for(
                SPI::spec_number(),
                old(self).selection(),
                Transfer::Send(tx@),
            ),
    {
        let lane = match self.take_slave_select() {
            None => {
                return Transaction::refused(SpiError::NoSlaveSelect);
            },
            Some(lane) => lane,
        };
        let mut plan = vec![
            Op::RequireClock(SPI::number()),
            write_op(Register::Ser, select_mask(lane)),
            write_op(Register::Ssienr, 0x01),
        ];
        let ghost head = seq![Op::RequireClock(SPI::spec_number())] + assert_and_enable(lane);
        assert(plan@ =~= head + pushes(tx@.take(0)));
        let mut i: usize = 0;
        while i < tx.len()
            invariant
                i <= tx@.len(),
                plan@ == head + pushes(tx@.take(i as int)),
            decreases tx@.len() - i,
        {
            plan.push(Op::Push(tx[i]));
            i = i + 1;
            assert(plan@ =~= head + pushes(tx@.take(i as int)));
        }
        assert(tx@.take(i as int) =~= tx@);
        plan.push(Op::AwaitIdle);
        plan.push(write_op(Register::Ser, 0x00));
        plan.push(write_op(Register::Ssienr, 0x00));
        assert(plan@ =~= transfer_plan(SPI::spec_number(), lane, Transfer::Send(tx@)));
        Transaction::new(plan)
    }

    /// A stream of words cannot be read: there is nothing that could own it.
    /// Always refused with `WillCauseMemoryError`. No transfer is attempted:
    /// nothing is asked of the hardware, and the choice of slave line stays.
    pub fn try_read(&mut self) -> (transaction: Transaction)
        ensures
            *final(self) == *old(self),
            transaction@ == TransactionView::refused(SpiError::WillCauseMemoryError),
    {
        Transaction::refused(SpiError::WillCauseMemoryError)
    }

    /// Send one word. Uses the choice of slave line up.
    pub fn try_send_word(&mut self, word: u32) -> (transaction: Transaction)
        ensures
            final(self).selection() == None::<u8>,
            final(self).token() == old(self).token(),
            transaction@ == transaction_for(
                SPI::spec_number(),
                old(self).selection(),
                Transfer::SendWord(word),
            ),
    {
        let lane = match self.take_slave_select() {
            None => {
                return Transaction::refused(SpiError::NoSlaveSelect);
            },
            Some(lane) => lane,
        };
        let plan = vec![
            Op::RequireClock(SPI::number()),
            write_op(Register::Ser, select_mask(lane)),
            write_op(Register::Ssienr, 0x01),
            Op::Push(word),
            Op::AwaitIdle,
            write_op(Register::Ser, 0x00),
            write_op(Register::Ssienr, 0x00),
        ];
        assert(plan@ =~= transfer_plan(SPI::spec_number(), lane, Transfer::SendWord(word)));
        Transaction::new(plan)
    }

    /// Read one word of the given width. A word that the FIFO gives above the
    /// largest of that width comes out as the largest. Uses the choice of
    /// slave line up.
    pub fn try_read_word(&mut self, width: WordWidth) -> (transaction: Transaction)
        ensures
            final(self).selection() == None::<u8>,
            final(self).token() == old(self).token(),
            transaction@ == transaction_for(
                SPI::spec_number(),
                old(self).selection(),
                Transfer::ReadWord(width.spec_limit()),
            ),
    {
        let lane = match self.take_slave_select() {
            None => {
                return Transaction::refused(SpiError::NoSlaveSelect);
            },
            Some(lane) => lane,
        };
        let plan = vec![
            Op::RequireClock(SPI::number()),
            write_op(Register::Ser, select_mask(lane)),
            write_op(Register::Ssienr, 0x01),
            write_op(Register::Ctrlr1, 0x00),
            write_op(Register::Dr, DUMMY_WORD),
            Op::AwaitReceive,
            Op::Pop(width.limit()),
            write_op(Register::Ser, 0x00),
            write_op(Register::Ssienr, 0x00),
        ];
        assert(plan@ =~= transfer_plan(
            SPI::spec_number(),
            lane,
            Transfer::ReadWord(width.spec_limit()),
        ));
        Transaction::new(plan)
    }
}

} // verus!
