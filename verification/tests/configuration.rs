use k210_hal::bus::{Aitm, Command, FrameFormat, Register, Tmod, WorkMode};
use k210_hal::spi::{check_configuration, SpiError, SpiExt, SpiNumber, SPI0, SPI1};
use k210_hal::time::Hertz;
use k210_hal::transaction::{Op, Transaction};

fn commands(mut transaction: Transaction) -> Vec<Command> {
    let mut log = Vec::new();
    while let Some(command) = transaction.pending() {
        log.push(command);
        transaction.advance(0);
        assert!(log.len() < 100);
    }
    assert_eq!(transaction.result(), Ok(None));
    log
}

fn write(register: Register, value: u32) -> Command {
    Command::Write { register, value }
}

#[test]
fn constrain_brings_the_bus_clock_up() {
    let (spi, bring_up) = SPI0.constrain();
    assert_eq!(spi.slave_select(), None);
    assert_eq!(commands(bring_up), vec![Command::EnableBusClock]);
}

#[test]
fn set_slave_select_is_read_back() {
    let (mut spi, _) = SPI1.constrain();
    for lane in 0..4 {
        spi.set_slave_select(Some(lane));
        assert_eq!(spi.slave_select(), Some(lane));
    }
    spi.set_slave_select(None);
    assert_eq!(spi.slave_select(), None);
}

#[test]
fn configure_writes_the_registers_in_order() {
    let (mut spi, _) = SPI0.constrain();
    let transaction = spi.configure(
        WorkMode::Mode0,
        FrameFormat::Standard,
        8,
        0,
        0,
        0,
        0,
        Aitm::Standard,
        Tmod::TransRecv,
    );
    assert_eq!(
        commands(transaction),
        vec![
            write(Register::Imr, 0x00),
            write(Register::Dmacr, 0x00),
            write(Register::Dmatdlr, 0x10),
            write(Register::Dmardlr, 0x00),
            write(Register::Ser, 0x00),
            write(Register::Ssienr, 0x00),
            Command::SetCtrlr0 {
                work_mode: WorkMode::Mode0,
                tmod: Tmod::TransRecv,
                frame_format: FrameFormat::Standard,
                data_length: 7,
            },
            Command::SetSpiCtrlr0 {
                aitm: Aitm::Standard,
                addr_length: 0,
                inst_length: 0,
                wait_cycles: 0,
            },
            write(Register::Endian, 0),
        ]
    );
}

#[test]
fn configure_encodes_the_framing_fields() {
    let (mut spi, _) = SPI1.constrain();
    let transaction = spi.configure(
        WorkMode::Mode3,
        FrameFormat::Quad,
        32,
        1,
        8,
        24,
        31,
        Aitm::AsFrameFormat,
        Tmod::Eerom,
    );
    let log = commands(transaction);
    assert_eq!(log.len(), 9);
    assert_eq!(
        log[6],
        Command::SetCtrlr0 {
            work_mode: WorkMode::Mode3,
            tmod: Tmod::Eerom,
            frame_format: FrameFormat::Quad,
            data_length: 31,
        }
    );
    assert_eq!(
        log[7],
        Command::SetSpiCtrlr0 {
            aitm: Aitm::AsFrameFormat,
            addr_length: 6,
            inst_length: 2,
            wait_cycles: 31,
        }
    );
    assert_eq!(log[8], write(Register::Endian, 1));
}

#[test]
fn configure_codes_each_instruction_length() {
    for (length, code) in [(0u8, 0u8), (4, 1), (8, 2), (16, 3)] {
        let (mut spi, _) = SPI0.constrain();
        let transaction = spi.configure(
            WorkMode::Mode1,
            FrameFormat::Dual,
            4,
            0,
            length,
            60,
            0,
            Aitm::AddrStandard,
            Tmod::Trans,
        );
        let log = commands(transaction);
        assert_eq!(
            log[7],
            Command::SetSpiCtrlr0 {
                aitm: Aitm::AddrStandard,
                addr_length: 15,
                inst_length: code,
                wait_cycles: 0,
            }
        );
        assert_eq!(
            log[6],
            Command::SetCtrlr0 {
                work_mode: WorkMode::Mode1,
                tmod: Tmod::Trans,
                frame_format: FrameFormat::Dual,
                data_length: 3,
            }
        );
    }
}

#[test]
fn configure_twice_asks_the_same() {
    let (mut spi, _) = SPI0.constrain();
    let first = commands(spi.configure(
        WorkMode::Mode2,
        FrameFormat::Standard,
        16,
        0,
        4,
        8,
        3,
        Aitm::Standard,
        Tmod::Recv,
    ));
    let second = commands(spi.configure(
        WorkMode::Mode2,
        FrameFormat::Standard,
        16,
        0,
        4,
        8,
        3,
        Aitm::Standard,
        Tmod::Recv,
    ));
    assert_eq!(first, second);
}

#[test]
fn valid_configurations_are_accepted() {
    assert!(check_configuration(4, 0, 0, 0));
    assert!(check_configuration(32, 16, 60, 31));
    assert!(check_configuration(8, 4, 24, 8));
    assert!(check_configuration(16, 8, 4, 1));
}

#[test]
fn word_width_outside_its_range_is_rejected() {
    assert!(!check_configuration(0, 0, 0, 0));
    assert!(!check_configuration(3, 0, 0, 0));
    assert!(!check_configuration(33, 0, 0, 0));
    assert!(!check_configuration(255, 0, 0, 0));
}

#[test]
fn too_many_wait_cycles_are_rejected() {
    assert!(!check_configuration(8, 0, 0, 32));
    assert!(!check_configuration(8, 0, 0, 255));
}

#[test]
fn address_length_off_the_grid_is_rejected() {
    assert!(!check_configuration(8, 0, 1, 0));
    assert!(!check_configuration(8, 0, 30, 0));
    assert!(!check_configuration(8, 0, 64, 0));
    assert!(!check_configuration(8, 0, 62, 0));
}

#[test]
fn unknown_instruction_length_is_rejected() {
    assert!(!check_configuration(8, 1, 0, 0));
    assert!(!check_configuration(8, 2, 0, 0));
    assert!(!check_configuration(8, 12, 0, 0));
    assert!(!check_configuration(8, 32, 0, 0));
}

#[test]
fn ten_megahertz_out_of_three_hundred_and_ninety() {
    let (mut spi, _) = SPI0.constrain();
    let configured = spi.configure(
        WorkMode::Mode0,
        FrameFormat::Standard,
        8,
        0,
        0,
        0,
        0,
        Aitm::Standard,
        Tmod::TransRecv,
    );
    assert_eq!(commands(configured).len(), 9);
    let (actual, transaction) = spi.set_clk_rate(Hertz(10_000_000), Hertz(390_000_000));
    assert_eq!(actual, Hertz(10_000_000));
    assert_eq!(
        commands(transaction),
        vec![
            Command::EnableClock { number: SpiNumber::Spi0 },
            write(Register::Baudr, 39),
        ]
    );
}

#[test]
fn clock_rate_is_the_input_divided_by_the_divisor() {
    let (mut spi, _) = SPI1.constrain();
    let (actual, transaction) = spi.set_clk_rate(Hertz(7_000_000), Hertz(390_000_000));
    assert_eq!(actual, Hertz(390_000_000 / 55));
    assert_eq!(actual, Hertz(7_090_909));
    assert_eq!(
        commands(transaction),
        vec![
            Command::EnableClock { number: SpiNumber::Spi1 },
            write(Register::Baudr, 55),
        ]
    );
}

#[test]
fn clock_rate_can_equal_a_request_that_does_not_divide_the_input() {
    let (mut spi, _) = SPI0.constrain();
    let (actual, transaction) = spi.set_clk_rate(Hertz(3), Hertz(10));
    assert_eq!(actual, Hertz(3));
    assert_eq!(commands(transaction)[1], write(Register::Baudr, 3));
}

#[test]
fn divisor_is_at_least_two() {
    let (mut spi, _) = SPI0.constrain();
    for asked in [390_000_000, 390_000_001, 200_000_000, u32::MAX] {
        let (actual, transaction) = spi.set_clk_rate(Hertz(asked), Hertz(390_000_000));
        assert_eq!(actual, Hertz(195_000_000));
        assert_eq!(commands(transaction)[1], write(Register::Baudr, 2));
    }
}

#[test]
fn divisor_is_at_most_65534() {
    let (mut spi, _) = SPI0.constrain();
    for asked in [1, 100, 5950] {
        let (actual, transaction) = spi.set_clk_rate(Hertz(asked), Hertz(390_000_000));
        assert_eq!(actual, Hertz(390_000_000 / 65534));
        assert_eq!(actual, Hertz(5951));
        assert_eq!(commands(transaction)[1], write(Register::Baudr, 65534));
    }
    let (actual, transaction) = spi.set_clk_rate(Hertz(5952), Hertz(390_000_000));
    assert_eq!(commands(transaction)[1], write(Register::Baudr, 65524));
    assert_eq!(actual, Hertz(5952));
}

#[test]
fn a_dead_input_clock_gives_no_rate() {
    let (mut spi, _) = SPI0.constrain();
    let (actual, transaction) = spi.set_clk_rate(Hertz(1_000_000), Hertz(0));
    assert_eq!(actual, Hertz(0));
    assert_eq!(commands(transaction)[1], write(Register::Baudr, 2));
}

#[test]
fn a_plan_of_ones_own_runs_step_by_step() {
    let plan = vec![
        Op::Push(1),
        Op::Push(2),
        Op::AwaitReceive,
        Op::Pop(0xf),
    ];
    let mut transaction = Transaction::new(plan);
    assert_eq!(transaction.pending(), Some(Command::Read { register: Register::Txflr }));
    transaction.advance(31);
    assert_eq!(transaction.pending(), Some(write(Register::Dr, 1)));
    transaction.advance(0);
    assert_eq!(transaction.pending(), Some(Command::Read { register: Register::Txflr }));
    transaction.advance(0);
    assert_eq!(transaction.pending(), Some(write(Register::Dr, 2)));
    transaction.advance(0);
    assert_eq!(transaction.pending(), Some(Command::Read { register: Register::Rxflr }));
    transaction.advance(0);
    assert_eq!(transaction.pending(), Some(Command::Read { register: Register::Rxflr }));
    transaction.advance(2);
    assert_eq!(transaction.pending(), Some(Command::Read { register: Register::Dr }));
    assert_eq!(transaction.result(), Err(nb::Error::WouldBlock));
    transaction.advance(0x1f);
    assert_eq!(transaction.result(), Ok(Some(0xf)));
}

#[test]
fn a_refused_transaction_asks_nothing() {
    for error in [
        SpiError::NoSlaveSelect,
        SpiError::NoClockRateSpecified,
        SpiError::WillCauseMemoryError,
    ] {
        let mut transaction = Transaction::refused(error);
        assert!(transaction.is_finished());
        assert_eq!(transaction.pending(), None);
        assert_eq!(transaction.result(), Err(nb::Error::Other(error)));
        transaction.advance(5);
        assert_eq!(transaction.result(), Err(nb::Error::Other(error)));
    }
}

#[test]
fn a_plan_that_requires_the_clock_fails_when_it_is_shut() {
    let plan = vec![
        Op::RequireClock(SpiNumber::Spi1),
        Op::Issue(Command::EnableBusClock),
    ];
    let mut shut = Transaction::new(plan.clone());
    assert_eq!(shut.pending(), Some(Command::ReadClockEnable { number: SpiNumber::Spi1 }));
    shut.advance(0);
    assert_eq!(shut.result(), Err(nb::Error::Other(SpiError::NoClockRateSpecified)));
    assert_eq!(shut.pending(), None);
    let mut open = Transaction::new(plan);
    open.advance(1);
    assert_eq!(open.pending(), Some(Command::EnableBusClock));
    open.advance(0);
    assert_eq!(open.result(), Ok(None));
}

#[test]
fn an_empty_plan_is_finished() {
    let transaction = Transaction::new(Vec::new());
    assert!(transaction.is_finished());
    assert_eq!(transaction.result(), Ok(None));
}
