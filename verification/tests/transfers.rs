use k210_hal::bus::{Command, Register};
use k210_hal::dmac::{DmacChannel, Endpoint, Inc, Msize, TrWidth};
use k210_hal::spi::{Spi, SpiError, SpiExt, SpiNumber, WordWidth, SPI0, SPI1};
use k210_hal::sysctl::DmaSelect;
use k210_hal::transaction::Transaction;

/// A register block that plays back what it was told to answer and keeps
/// everything it was asked to do.
struct Mock {
    gate: u32,
    tx_levels: Vec<u32>,
    status: Vec<u32>,
    rx_levels: Vec<u32>,
    data: Vec<u32>,
    log: Vec<Command>,
    select: u32,
    select_at_status_read: Vec<u32>,
    select_at_pop: Vec<u32>,
}

impl Mock {
    fn new() -> Mock {
        Mock {
            gate: 1,
            tx_levels: vec![0],
            status: vec![0x04],
            rx_levels: vec![1],
            data: vec![0],
            log: Vec::new(),
            select: 0,
            select_at_status_read: Vec::new(),
            select_at_pop: Vec::new(),
        }
    }

    /// The next answer of a script; its last answer is given for ever.
    fn next(script: &mut Vec<u32>) -> u32 {
        if script.len() > 1 {
            script.remove(0)
        } else {
            script[0]
        }
    }

    fn perform(&mut self, command: Command) -> u32 {
        self.log.push(command);
        match command {
            Command::Write { register: Register::Ser, value } => {
                self.select = value;
                0
            }
            Command::Read { register: Register::Txflr } => Mock::next(&mut self.tx_levels),
            Command::Read { register: Register::Sr } => {
                self.select_at_status_read.push(self.select);
                Mock::next(&mut self.status)
            }
            Command::Read { register: Register::Rxflr } => Mock::next(&mut self.rx_levels),
            Command::Read { register: Register::Dr } => {
                self.select_at_pop.push(self.select);
                Mock::next(&mut self.data)
            }
            Command::ReadClockEnable { .. } => self.gate,
            _ => 0,
        }
    }

    /// Runs the transaction until it is finished, `limit` commands at most.
    /// Gives the number of commands performed.
    fn run(&mut self, transaction: &mut Transaction, limit: usize) -> usize {
        let mut steps = 0;
        while steps < limit {
            match transaction.pending() {
                None => return steps,
                Some(command) => {
                    let reply = self.perform(command);
                    transaction.advance(reply);
                    steps += 1;
                }
            }
        }
        steps
    }
}

fn write(register: Register, value: u32) -> Command {
    Command::Write { register, value }
}

fn read(register: Register) -> Command {
    Command::Read { register }
}

fn selected(lane: u8) -> Spi<SPI0> {
    let (mut spi, _) = SPI0.constrain();
    spi.set_slave_select(Some(lane));
    spi
}

#[test]
fn send_word_runs_the_whole_protocol() {
    let mut spi = selected(1);
    let mut mock = Mock::new();
    let mut transaction = spi.try_send_word(0xab);
    let steps = mock.run(&mut transaction, 100);
    assert_eq!(steps, 8);
    assert_eq!(
        mock.log,
        vec![
            Command::ReadClockEnable { number: SpiNumber::Spi0 },
            write(Register::Ser, 0b0010),
            write(Register::Ssienr, 1),
            read(Register::Txflr),
            write(Register::Dr, 0xab),
            read(Register::Sr),
            write(Register::Ser, 0),
            write(Register::Ssienr, 0),
        ]
    );
    assert_eq!(transaction.result(), Ok(None));
    assert!(transaction.is_finished());
}

#[test]
fn send_word_waits_while_the_fifo_is_full() {
    let mut spi = selected(0);
    let mut mock = Mock::new();
    mock.tx_levels = vec![32, 32, 32, 31];
    let mut transaction = spi.try_send_word(7);
    mock.run(&mut transaction, 100);
    assert_eq!(
        mock.log,
        vec![
            Command::ReadClockEnable { number: SpiNumber::Spi0 },
            write(Register::Ser, 0b0001),
            write(Register::Ssienr, 1),
            read(Register::Txflr),
            read(Register::Txflr),
            read(Register::Txflr),
            read(Register::Txflr),
            write(Register::Dr, 7),
            read(Register::Sr),
            write(Register::Ser, 0),
            write(Register::Ssienr, 0),
        ]
    );
    assert_eq!(transaction.result(), Ok(None));
}

#[test]
fn a_fill_level_beyond_the_depth_leaves_no_room() {
    let mut spi = selected(0);
    let mut mock = Mock::new();
    mock.tx_levels = vec![33, 0xffff_ffff, 0];
    let mut transaction = spi.try_send_word(7);
    mock.run(&mut transaction, 100);
    let level_reads = mock.log.iter().filter(|c| **c == read(Register::Txflr)).count();
    assert_eq!(level_reads, 3);
    assert_eq!(transaction.result(), Ok(None));
}

#[test]
fn send_pushes_as_many_words_as_the_fifo_had_room_for() {
    let mut spi = selected(3);
    let mut mock = Mock::new();
    mock.tx_levels = vec![30, 32, 31, 0];
    let mut transaction = spi.try_send(&[10, 11, 12, 13, 14]);
    mock.run(&mut transaction, 100);
    assert_eq!(
        mock.log,
        vec![
            Command::ReadClockEnable { number: SpiNumber::Spi0 },
            write(Register::Ser, 0b1000),
            write(Register::Ssienr, 1),
            read(Register::Txflr),
            write(Register::Dr, 10),
            write(Register::Dr, 11),
            read(Register::Txflr),
            read(Register::Txflr),
            write(Register::Dr, 12),
            read(Register::Txflr),
            write(Register::Dr, 13),
            write(Register::Dr, 14),
            read(Register::Sr),
            write(Register::Ser, 0),
            write(Register::Ssienr, 0),
        ]
    );
    assert_eq!(transaction.result(), Ok(None));
}

#[test]
fn send_of_nothing_still_brackets_the_wire() {
    let mut spi = selected(2);
    let mut mock = Mock::new();
    let mut transaction = spi.try_send(&[]);
    mock.run(&mut transaction, 100);
    assert_eq!(
        mock.log,
        vec![
            Command::ReadClockEnable { number: SpiNumber::Spi0 },
            write(Register::Ser, 0b0100),
            write(Register::Ssienr, 1),
            read(Register::Sr),
            write(Register::Ser, 0),
            write(Register::Ssienr, 0),
        ]
    );
    assert_eq!(transaction.result(), Ok(None));
}

#[test]
fn send_of_more_words_than_the_fifo_holds() {
    let mut spi = selected(0);
    let mut mock = Mock::new();
    let words: Vec<u32> = (0..40).collect();
    let mut transaction = spi.try_send(&words);
    mock.run(&mut transaction, 1000);
    let pushed: Vec<u32> = mock
        .log
        .iter()
        .filter_map(|c| match c {
            Command::Write { register: Register::Dr, value } => Some(*value),
            _ => None,
        })
        .collect();
    assert_eq!(pushed, words);
    let level_reads = mock.log.iter().filter(|c| **c == read(Register::Txflr)).count();
    assert_eq!(level_reads, 2);
    assert_eq!(transaction.result(), Ok(None));
}

#[test]
fn busy_wire_hangs_send_word() {
    let mut spi = selected(1);
    let mut mock = Mock::new();
    mock.status = vec![0x01];
    let mut transaction = spi.try_send_word(0x55);
    let steps = mock.run(&mut transaction, 5000);
    assert_eq!(steps, 5000);
    assert!(!transaction.is_finished());
    assert_eq!(transaction.result(), Err(nb::Error::WouldBlock));
    assert_eq!(transaction.pending(), Some(read(Register::Sr)));
    assert!(!mock.log.contains(&write(Register::Ser, 0)));
    assert_eq!(mock.select, 0b0010);
}

#[test]
fn busy_wire_hangs_send() {
    let mut spi = selected(1);
    let mut mock = Mock::new();
    mock.status = vec![0x05];
    let mut transaction = spi.try_send(&[1, 2, 3]);
    let steps = mock.run(&mut transaction, 5000);
    assert_eq!(steps, 5000);
    assert_eq!(transaction.result(), Err(nb::Error::WouldBlock));
    assert!(!mock.log.contains(&write(Register::Ser, 0)));
}

#[test]
fn a_full_transmit_fifo_that_is_not_busy_is_not_idle() {
    let mut spi = selected(1);
    let mut mock = Mock::new();
    mock.status = vec![0x00, 0x01, 0x05, 0x02, 0x06];
    let mut transaction = spi.try_send_word(1);
    mock.run(&mut transaction, 100);
    assert_eq!(mock.select_at_status_read, vec![0b0010; 5]);
    let last = mock.log.len();
    assert_eq!(mock.log[last - 3], read(Register::Sr));
    assert_eq!(mock.log[last - 2], write(Register::Ser, 0));
    assert_eq!(transaction.result(), Ok(None));
}

#[test]
fn release_comes_once_the_wire_is_idle() {
    let mut spi = selected(1);
    let mut mock = Mock::new();
    mock.status = vec![0x01, 0x01, 0x00, 0x05, 0x04];
    let mut transaction = spi.try_send_word(0x55);
    mock.run(&mut transaction, 100);
    let reads = mock.log.iter().filter(|c| **c == read(Register::Sr)).count();
    assert_eq!(reads, 5);
    assert_eq!(mock.select, 0);
    assert_eq!(transaction.result(), Ok(None));
}

/// One transfer of each kind, each on a handle of its own with `select` as
/// its choice of slave line.
fn one_of_each(select: Option<u8>) -> Vec<Transaction> {
    let handle = || {
        let (mut spi, _) = SPI0.constrain();
        spi.set_slave_select(select);
        spi
    };
    vec![
        handle().try_send(&[1, 2]),
        handle().try_send_word(1),
        handle().try_read_word(WordWidth::Bits16),
        handle().send_data_dma(DmacChannel::Channel1, 3),
        handle().send_data_dma(DmacChannel::Channel1, 0),
        handle().send_data_dma(DmacChannel::Channel1, u32::MAX),
        handle().recv_data_dma(DmacChannel::Channel2, 3),
        handle().recv_data_dma(DmacChannel::Channel2, u32::MAX),
        handle().recv_data_dma(DmacChannel::Channel2, 0),
    ]
}

#[test]
fn no_slave_select_refuses_every_transfer() {
    let refused = Err(nb::Error::Other(SpiError::NoSlaveSelect));
    for mut transaction in one_of_each(None) {
        assert_eq!(transaction.pending(), None);
        assert_eq!(transaction.result(), refused);
        let mut mock = Mock::new();
        assert_eq!(mock.run(&mut transaction, 10), 0);
        assert!(mock.log.is_empty());
        transaction.advance(1);
        assert_eq!(transaction.result(), refused);
    }
}

#[test]
fn deselecting_refuses_again() {
    let mut spi = selected(2);
    spi.set_slave_select(None);
    assert_eq!(spi.slave_select(), None);
    let transaction = spi.try_send_word(1);
    assert_eq!(transaction.result(), Err(nb::Error::Other(SpiError::NoSlaveSelect)));
}

#[test]
fn shut_clock_gate_refuses_every_transfer() {
    let refused = Err(nb::Error::Other(SpiError::NoClockRateSpecified));
    for mut transaction in one_of_each(Some(0)) {
        let mut mock = Mock::new();
        mock.gate = 0;
        assert_eq!(transaction.result(), Err(nb::Error::WouldBlock));
        assert_eq!(mock.run(&mut transaction, 10), 1);
        assert_eq!(mock.log, vec![Command::ReadClockEnable { number: SpiNumber::Spi0 }]);
        assert_eq!(transaction.result(), refused);
        assert_eq!(transaction.pending(), None);
    }
}

#[test]
fn no_slave_select_comes_before_the_clock_gate() {
    let (mut spi, _) = SPI1.constrain();
    let mut mock = Mock::new();
    mock.gate = 0;
    let mut transaction = spi.try_send_word(1);
    mock.run(&mut transaction, 10);
    assert_eq!(transaction.result(), Err(nb::Error::Other(SpiError::NoSlaveSelect)));
    assert!(mock.log.is_empty());
}

#[test]
fn the_second_controller_reads_its_own_gate() {
    let (mut spi, _) = SPI1.constrain();
    spi.set_slave_select(Some(0));
    let transaction = spi.try_send_word(1);
    assert_eq!(
        transaction.pending(),
        Some(Command::ReadClockEnable { number: SpiNumber::Spi1 })
    );
}

#[test]
fn select_register_is_cleared_after_each_kind_of_transfer() {
    let transactions = vec![
        selected(2).try_send(&[1, 2]),
        selected(2).try_send_word(1),
        selected(2).try_read_word(WordWidth::Bits32),
        selected(2).send_data_dma(DmacChannel::Channel2, 3),
        selected(2).send_data_dma(DmacChannel::Channel2, u32::MAX),
        selected(2).recv_data_dma(DmacChannel::Channel2, 3),
        selected(2).recv_data_dma(DmacChannel::Channel2, u32::MAX),
    ];
    for mut transaction in transactions {
        let mut mock = Mock::new();
        mock.select = 0xdead;
        mock.run(&mut transaction, 100);
        assert!(transaction.result().is_ok());
        assert!(mock.log.contains(&write(Register::Ser, 0b0100)));
        assert_eq!(mock.select, 0);
        assert_eq!(mock.log[mock.log.len() - 2], write(Register::Ser, 0));
        assert_eq!(mock.log[mock.log.len() - 1], write(Register::Ssienr, 0));
    }
}

#[test]
fn transfer_word_on_an_eight_bit_handle() {
    let mut spi = selected(1);
    let mut mock = Mock::new();
    mock.data = vec![0x5a];
    let mut sent = spi.try_send_word(0xff);
    mock.run(&mut sent, 100);
    assert_eq!(sent.result(), Ok(None));
    spi.set_slave_select(Some(1));
    let mut received = spi.try_read_word(WordWidth::Bits8);
    mock.run(&mut received, 100);
    assert_eq!(received.result(), Ok(Some(0x5a)));
    assert_eq!(mock.select_at_status_read, vec![0b0010]);
    assert_eq!(mock.select_at_pop, vec![0b0010]);
    assert_eq!(mock.select, 0);
}

#[test]
fn read_word_runs_the_whole_protocol() {
    let mut spi = selected(1);
    let mut mock = Mock::new();
    mock.rx_levels = vec![0, 0, 1];
    mock.data = vec![0x17];
    let mut transaction = spi.try_read_word(WordWidth::Bits8);
    mock.run(&mut transaction, 100);
    assert_eq!(
        mock.log,
        vec![
            Command::ReadClockEnable { number: SpiNumber::Spi0 },
            write(Register::Ser, 0b0010),
            write(Register::Ssienr, 1),
            write(Register::Ctrlr1, 0),
            write(Register::Dr, 0xffff_ffff),
            read(Register::Rxflr),
            read(Register::Rxflr),
            read(Register::Rxflr),
            read(Register::Dr),
            write(Register::Ser, 0),
            write(Register::Ssienr, 0),
        ]
    );
    assert_eq!(transaction.result(), Ok(Some(0x17)));
}

#[test]
fn read_word_waits_for_the_receive_fifo() {
    let mut spi = selected(1);
    let mut mock = Mock::new();
    mock.rx_levels = vec![0];
    let mut transaction = spi.try_read_word(WordWidth::Bits8);
    let steps = mock.run(&mut transaction, 2000);
    assert_eq!(steps, 2000);
    assert_eq!(transaction.pending(), Some(read(Register::Rxflr)));
    assert_eq!(transaction.result(), Err(nb::Error::WouldBlock));
    assert!(mock.select_at_pop.is_empty());
}

#[test]
fn read_word_saturates_to_the_width() {
    let cases: Vec<(WordWidth, u32, u32)> = vec![
        (WordWidth::Bits8, 0x00, 0x00),
        (WordWidth::Bits8, 0xff, 0xff),
        (WordWidth::Bits8, 0x100, 0xff),
        (WordWidth::Bits8, 0xffff_ff01, 0xff),
        (WordWidth::Bits16, 0xffff, 0xffff),
        (WordWidth::Bits16, 0x1_0000, 0xffff),
        (WordWidth::Bits16, 0x1234, 0x1234),
        (WordWidth::Bits32, 0xffff_ffff, 0xffff_ffff),
        (WordWidth::Bits32, 0x1234_5678, 0x1234_5678),
    ];
    for (width, raw, expected) in cases {
        let mut spi = selected(0);
        let mut mock = Mock::new();
        mock.data = vec![raw];
        let mut transaction = spi.try_read_word(width);
        mock.run(&mut transaction, 100);
        assert_eq!(transaction.result(), Ok(Some(expected)));
    }
}

#[test]
fn word_width_limits() {
    assert_eq!(WordWidth::Bits8.limit(), 255);
    assert_eq!(WordWidth::Bits16.limit(), 65535);
    assert_eq!(WordWidth::Bits32.limit(), 4294967295);
}

#[test]
fn streamed_read_is_never_attempted() {
    let mut spi = selected(1);
    let mut transaction = spi.try_read();
    assert_eq!(transaction.pending(), None);
    assert_eq!(
        transaction.result(),
        Err(nb::Error::Other(SpiError::WillCauseMemoryError))
    );
    let mut mock = Mock::new();
    assert_eq!(mock.run(&mut transaction, 10), 0);
}

#[test]
fn send_data_dma_runs_the_whole_protocol() {
    let mut spi = selected(3);
    let mut mock = Mock::new();
    mock.status = vec![0x01, 0x04];
    let mut transaction = spi.send_data_dma(DmacChannel::Channel4, 5);
    mock.run(&mut transaction, 100);
    assert_eq!(
        mock.log,
        vec![
            Command::ReadClockEnable { number: SpiNumber::Spi0 },
            write(Register::Dmacr, 0x2),
            write(Register::Ssienr, 1),
            Command::SelectDma { channel: DmacChannel::Channel4, select: DmaSelect::Ssi0TxReq },
            Command::SetSingleMode {
                channel: DmacChannel::Channel4,
                src: Endpoint::Buffer,
                dst: Endpoint::DataRegister,
                src_inc: Inc::Increment,
                dst_inc: Inc::NoChange,
                width: TrWidth::Width32,
                burst: Msize::Length4,
                count: 5,
            },
            write(Register::Ser, 0b1000),
            Command::WaitDone { channel: DmacChannel::Channel4 },
            read(Register::Sr),
            read(Register::Sr),
            write(Register::Ser, 0),
            write(Register::Ssienr, 0),
        ]
    );
    assert_eq!(transaction.result(), Ok(None));
}

#[test]
fn send_data_dma_waits_for_the_wire_after_the_channel() {
    let mut spi = selected(3);
    let mut mock = Mock::new();
    mock.status = vec![0x01];
    let mut transaction = spi.send_data_dma(DmacChannel::Channel4, 1);
    let steps = mock.run(&mut transaction, 3000);
    assert_eq!(steps, 3000);
    assert!(mock.log.contains(&Command::WaitDone { channel: DmacChannel::Channel4 }));
    assert!(!mock.log.contains(&write(Register::Ser, 0)));
    assert_eq!(mock.select, 0b1000);
}

#[test]
fn recv_data_dma_runs_the_whole_protocol() {
    let (mut spi, _) = SPI1.constrain();
    spi.set_slave_select(Some(0));
    let mut mock = Mock::new();
    let mut transaction = spi.recv_data_dma(DmacChannel::Channel5, 16);
    mock.run(&mut transaction, 100);
    assert_eq!(
        mock.log,
        vec![
            Command::ReadClockEnable { number: SpiNumber::Spi1 },
            write(Register::Ctrlr1, 15),
            write(Register::Dmacr, 0x3),
            write(Register::Ssienr, 1),
            Command::SelectDma { channel: DmacChannel::Channel5, select: DmaSelect::Ssi1RxReq },
            Command::SetSingleMode {
                channel: DmacChannel::Channel5,
                src: Endpoint::DataRegister,
                dst: Endpoint::Buffer,
                src_inc: Inc::NoChange,
                dst_inc: Inc::Increment,
                width: TrWidth::Width32,
                burst: Msize::Length1,
                count: 16,
            },
            write(Register::Dr, 0xffff_ffff),
            write(Register::Ser, 0b0001),
            Command::WaitDone { channel: DmacChannel::Channel5 },
            read(Register::Sr),
            write(Register::Ser, 0),
            write(Register::Ssienr, 0),
        ]
    );
    assert_eq!(transaction.result(), Ok(None));
}

#[test]
fn send_data_dma_on_the_second_controller_uses_its_request_line() {
    let (mut spi, _) = SPI1.constrain();
    spi.set_slave_select(Some(0));
    let mut mock = Mock::new();
    let mut transaction = spi.send_data_dma(DmacChannel::Channel0, 1);
    mock.run(&mut transaction, 100);
    assert!(mock.log.contains(&Command::SelectDma {
        channel: DmacChannel::Channel0,
        select: DmaSelect::Ssi1TxReq
    }));
}

#[test]
fn recv_data_dma_of_nothing_needs_a_slave_line() {
    let (mut spi, _) = SPI0.constrain();
    let mut transaction = spi.recv_data_dma(DmacChannel::Channel0, 0);
    assert_eq!(transaction.pending(), None);
    assert_eq!(transaction.result(), Err(nb::Error::Other(SpiError::NoSlaveSelect)));
    let mut mock = Mock::new();
    assert_eq!(mock.run(&mut transaction, 10), 0);
    assert!(mock.log.is_empty());
}

#[test]
fn recv_data_dma_of_nothing_needs_the_clock() {
    let mut spi = selected(1);
    let mut transaction = spi.recv_data_dma(DmacChannel::Channel0, 0);
    let mut mock = Mock::new();
    mock.gate = 0;
    assert_eq!(mock.run(&mut transaction, 10), 1);
    assert_eq!(mock.log, vec![Command::ReadClockEnable { number: SpiNumber::Spi0 }]);
    assert_eq!(
        transaction.result(),
        Err(nb::Error::Other(SpiError::NoClockRateSpecified))
    );
}

#[test]
fn recv_data_dma_of_nothing_writes_nothing() {
    let mut spi = selected(1);
    let mut transaction = spi.recv_data_dma(DmacChannel::Channel0, 0);
    assert_eq!(transaction.result(), Err(nb::Error::WouldBlock));
    let mut mock = Mock::new();
    mock.select = 0;
    assert_eq!(mock.run(&mut transaction, 10), 1);
    assert_eq!(mock.log, vec![Command::ReadClockEnable { number: SpiNumber::Spi0 }]);
    assert_eq!(transaction.result(), Ok(None));
    assert_eq!(mock.select, 0);
    assert_eq!(spi.slave_select(), None);
}

#[test]
fn send_data_dma_of_nothing_still_brackets_the_wire() {
    let mut spi = selected(0);
    let mut mock = Mock::new();
    let mut transaction = spi.send_data_dma(DmacChannel::Channel3, 0);
    mock.run(&mut transaction, 100);
    assert_eq!(mock.log.len(), 10);
    assert_eq!(mock.log[5], write(Register::Ser, 0b0001));
    assert_eq!(mock.log[8], write(Register::Ser, 0));
    assert_eq!(transaction.result(), Ok(None));
}

#[test]
fn a_finished_transaction_ignores_answers() {
    let mut spi = selected(1);
    let mut mock = Mock::new();
    let mut transaction = spi.try_read_word(WordWidth::Bits8);
    mock.data = vec![3];
    mock.run(&mut transaction, 100);
    transaction.advance(0);
    transaction.advance(77);
    assert_eq!(transaction.pending(), None);
    assert_eq!(transaction.result(), Ok(Some(3)));
}

#[test]
fn a_completed_transfer_uses_the_slave_select_up() {
    let finished: Vec<fn(&mut Spi<SPI0>) -> Transaction> = vec![
        |spi| spi.try_send(&[1, 2]),
        |spi| spi.try_send_word(1),
        |spi| spi.try_read_word(WordWidth::Bits8),
        |spi| spi.send_data_dma(DmacChannel::Channel0, 4),
        |spi| spi.recv_data_dma(DmacChannel::Channel0, 4),
        |spi| spi.recv_data_dma(DmacChannel::Channel0, 0),
    ];
    for begin in finished {
        let mut spi = selected(2);
        let mut mock = Mock::new();
        let mut first = begin(&mut spi);
        assert_eq!(spi.slave_select(), None);
        mock.run(&mut first, 100);
        assert!(first.result().is_ok());
        assert_eq!(spi.slave_select(), None);
        let second = begin(&mut spi);
        assert_eq!(second.pending(), None);
        assert_eq!(second.result(), Err(nb::Error::Other(SpiError::NoSlaveSelect)));
        spi.set_slave_select(Some(2));
        let mut third = begin(&mut spi);
        mock.run(&mut third, 100);
        assert!(third.result().is_ok());
    }
}

#[test]
fn an_aborted_transfer_uses_the_slave_select_up() {
    let mut spi = selected(3);
    let mut mock = Mock::new();
    mock.gate = 0;
    let mut aborted = spi.try_send_word(1);
    mock.run(&mut aborted, 100);
    assert_eq!(aborted.result(), Err(nb::Error::Other(SpiError::NoClockRateSpecified)));
    assert_eq!(spi.slave_select(), None);
    let refused = spi.try_send_word(1);
    assert_eq!(refused.result(), Err(nb::Error::Other(SpiError::NoSlaveSelect)));
    assert_eq!(spi.slave_select(), None);
}

#[test]
fn a_streamed_read_leaves_the_slave_select() {
    let mut spi = selected(3);
    let _ = spi.try_read();
    assert_eq!(spi.slave_select(), Some(3));
}
