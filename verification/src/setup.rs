//! What holds of configuring the controller and of setting its clock rate.

use vstd::prelude::*;
use crate::bus::{Command, Register};
use crate::run::settled;
use crate::spi::{
    clock_divisor, clock_plan, clock_rate, configuration_valid, configure_plan, Aitm, FrameFormat,
    SpiError, SpiNumber, Tmod, WorkMode,
};
use crate::time::Hertz;
use crate::transaction::TransactionView;

verus! {

/// The divider always lies within what the divider register takes, and the
/// rate given back is the input frequency divided by it.
pub proof fn lemma_clock_divisor_in_range(spi_clk: Hertz, freq_in: Hertz)
    requires
        spi_clk.0 != 0,
    ensures
        2 <= clock_divisor(spi_clk, freq_in) <= 65534,
        clock_rate(spi_clk, freq_in).0 == freq_in.0 / clock_divisor(spi_clk, freq_in),
{
}

/// Where the rate asked for divides the input frequency evenly, and the
/// quotient is a divider the register takes, the rate given back is the rate
/// asked for.
pub proof fn lemma_even_rate_is_exact(spi_clk: Hertz, freq_in: Hertz)
    requires
        spi_clk.0 != 0,
        freq_in.0 % spi_clk.0 == 0,
        2 <= freq_in.0 / spi_clk.0 <= 65534,
    ensures
        clock_rate(spi_clk, freq_in) == spi_clk,
{
    let asked = spi_clk.0 as int;
    let input = freq_in.0 as int;
    let divisor = input / asked;
    assert(input == asked * divisor) by (nonlinear_arith)
        requires
            asked > 0,
            input % asked == 0,
            divisor == input / asked,
    ;
    assert(input / divisor == asked) by (nonlinear_arith)
        requires
            divisor >= 2,
            input == asked * divisor,
    ;
}

/// A word width outside 4 to 32 bits, 32 wait cycles or more, an address
/// length that is no multiple of 4 or lies above 60, an instruction length
/// other than 0, 4, 8 and 16: each alone makes a configuration that
/// `configure` does not take, so that no plan is made of it and nothing is
/// written.
pub proof fn lemma_invalid_configuration(
    data_length: u8,
    instruction_length: u8,
    address_length: u8,
    wait_cycles: u8,
)
    requires
        data_length < 4 || data_length > 32 || wait_cycles >= 32 || address_length % 4 != 0
            || address_length > 60 || !(instruction_length == 0 || instruction_length == 4
            || instruction_length == 8 || instruction_length == 16),
    ensures
        !configuration_valid(data_length, instruction_length, address_length, wait_cycles),
{
}

/// What a register holds once the controller is configured, if it held
/// `before`: the interrupt mask, the DMA requests, the receive threshold, the
/// slave lines and the enable are zero, the transmit threshold is 16, the
/// byte order is the one asked for, and the others are as they were.
pub open spec fn configured(register: Register, endian: u32, before: u32) -> u32 {
    match register {
        Register::Imr => 0x00,
        Register::Dmacr => 0x00,
        Register::Dmatdlr => 0x10,
        Register::Dmardlr => 0x00,
        Register::Ser => 0x00,
        Register::Ssienr => 0x00,
        Register::Endian => endian,
        _ => before,
    }
}

/// Configuring takes nine commands, whatever the hardware answers, and
/// never fails. What it leaves in the registers it writes does not depend on
/// what they held, so configuring twice leaves what configuring once leaves:
/// among the rest, every slave line released and the controller disabled.
pub proof fn lemma_configure_settles(
    work_mode: WorkMode,
    frame_format: FrameFormat,
    data_length: u8,
    endian: u32,
    instruction_length: u8,
    address_length: u8,
    wait_cycles: u8,
    instruction_address_trans_mode: Aitm,
    tmod: Tmod,
    replies: Seq<u32>,
    n: nat,
    register: Register,
    before: u32,
)
    requires
        n >= 9,
    ensures
        ({
            let begun = TransactionView::start(
                configure_plan(
                    work_mode,
                    frame_format,
                    data_length,
                    endian,
                    instruction_length,
                    address_length,
                    wait_cycles,
                    instruction_address_trans_mode,
                    tmod,
                ),
            );
            &&& begun.after(replies, n).result() == Ok::<Option<u32>, nb::Error<SpiError>>(None)
            &&& begun.register_after(replies, n, register, before) == configured(
                register,
                endian,
                before,
            )
            &&& configured(register, endian, configured(register, endian, before)) == configured(
                register,
                endian,
                before,
            )
        }),
{
    let plan = configure_plan(
        work_mode,
        frame_format,
        data_length,
        endian,
        instruction_length,
        address_length,
        wait_cycles,
        instruction_address_trans_mode,
        tmod,
    );
    TransactionView::lemma_straight_run(plan, replies, n, register, before);
    reveal_with_fuel(settled, 10);
}

/// Setting the clock rate takes two commands and never fails. It leaves the
/// divider in the divider register and every other register as it was.
pub proof fn lemma_clock_rate_settles(
    number: SpiNumber,
    spi_clk: Hertz,
    freq_in: Hertz,
    replies: Seq<u32>,
    n: nat,
    register: Register,
    before: u32,
)
    requires
        n >= 2,
    ensures
        ({
            let begun = TransactionView::start(
                clock_plan(number, clock_divisor(spi_clk, freq_in)),
            );
            &&& begun.issued(replies, 0) == Some(Command::EnableClock { number })
            &&& begun.after(replies, n).result() == Ok::<Option<u32>, nb::Error<SpiError>>(None)
            &&& begun.register_after(replies, n, register, before) == if register
                == Register::Baudr {
                clock_divisor(spi_clk, freq_in)
            } else {
                before
            }
        }),
{
    let plan = clock_plan(number, clock_divisor(spi_clk, freq_in));
    TransactionView::lemma_straight_run(plan, replies, n, register, before);
    TransactionView::lemma_straight_run(plan, replies, 0, register, before);
    reveal_with_fuel(settled, 3);
}

} // verus!
