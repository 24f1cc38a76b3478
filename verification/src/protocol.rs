//! What holds of every transfer, whatever the hardware answers.
//!
//! The statements here speak of runs: a transaction as a handle makes it, and
//! a sequence of answers fed to it one by one. They say when a transfer is
//! refused and when it comes to its end, that the slave line is asserted
//! while the hardware is looked at, and that it is released at the end and
//! not before.

use vstd::prelude::*;
use crate::bus::{Command, Register};
use crate::dmac::DmacChannel;
use crate::fifo::{lemma_fifo_plan_shape, sends_through_fifo};
use crate::run::ready;
use crate::spi::{
    idle_plan, moves_nothing, select_bits, selectable, transaction_for, transfer_plan,
    transfer_steps, write_to, SpiError, SpiNumber, Transfer, MAX_SLAVE_SELECT,
};
use crate::transaction::{saturate, transmit_idle, Op};

verus! {

/// Each of the four slave lines has a bit of its own in the slave select
/// register, so asserting a line never writes zero.
pub proof fn lemma_select_bits(lane: u8)
    requires
        lane <= MAX_SLAVE_SELECT,
    ensures
        lane == 0 ==> select_bits(lane) == 0b0001,
        lane == 1 ==> select_bits(lane) == 0b0010,
        lane == 2 ==> select_bits(lane) == 0b0100,
        lane == 3 ==> select_bits(lane) == 0b1000,
        select_bits(lane) != 0,
{
    assert(1u32 << 0u8 == 1) by (bit_vector);
    assert(1u32 << 1u8 == 2) by (bit_vector);
    assert(1u32 << 2u8 == 4) by (bit_vector);
    assert(1u32 << 3u8 == 8) by (bit_vector);
}

/// Whether a transfer ends by waiting for the wire to fall idle: all do but
/// the read of a single word, which ends when the word is there, and the
/// transfer that moves nothing.
pub open spec fn waits_for_idle(transfer: Transfer) -> bool {
    !(transfer is ReadWord) && !moves_nothing(transfer)
}

/// The shape that the plans of all transfers share. The clock gate is looked
/// at first and never again; the last two steps release the slave lines and
/// disable the controller; the wait that ends the transfer comes just before
/// them; and no other step writes zero to the slave select register.
pub proof fn lemma_plan_shape(number: SpiNumber, lane: u8, transfer: Transfer)
    requires
        lane <= MAX_SLAVE_SELECT,
    ensures
        ({
            let plan = transfer_plan(number, lane, transfer);
            let len = plan.len() as int;
            &&& len >= 6
            &&& plan[0] == Op::RequireClock(number)
            &&& plan[len - 2] == write_to(Register::Ser, 0x00)
            &&& plan[len - 1] == write_to(Register::Ssienr, 0x00)
            &&& waits_for_idle(transfer) ==> plan[len - 3] == Op::AwaitIdle
            &&& transfer is ReadWord ==> plan[len - 3] is Pop && plan[len - 4] == Op::AwaitReceive
            &&& forall|k: int| 0 < k < len ==> !(#[trigger] plan[k] is RequireClock)
            &&& forall|k: int|
                0 <= k < len && k != len - 2 ==> #[trigger] plan[k] != write_to(Register::Ser, 0x00)
            &&& forall|k: int|
                0 <= k < len && #[trigger] plan[k] is Pop ==> transfer is ReadWord && k == len - 3
        }),
{
    lemma_select_bits(lane);
    let plan = transfer_plan(number, lane, transfer);
    let steps = transfer_steps(number, lane, transfer);
    let len = plan.len() as int;
    assert(plan.len() == 1 + steps.len() + 2);
    assert forall|k: int| 0 < k < len implies !(#[trigger] plan[k] is RequireClock) by {
        if k <= steps.len() {
            assert(plan[k] == steps[k - 1]);
        }
    }
    assert forall|k: int| 0 <= k < len && k != len - 2 implies #[trigger] plan[k] != write_to(
        Register::Ser,
        0x00,
    ) by {
        if 0 < k <= steps.len() {
            assert(plan[k] == steps[k - 1]);
        }
    }
    assert forall|k: int| 0 <= k < len && #[trigger] plan[k] is Pop implies transfer is ReadWord
        && k == len - 3 by {
        if 0 < k <= steps.len() {
            assert(plan[k] == steps[k - 1]);
        }
    }
}

/// The command that releases the slave lines.
pub open spec fn release_command() -> Command {
    Command::Write { register: Register::Ser, value: 0x00 }
}

/// A transfer attempted with no slave line chosen ends at once with
/// `NoSlaveSelect`. It asks nothing of the hardware, at no time, so no
/// register changes.
pub proof fn lemma_unselected_is_refused(
    number: SpiNumber,
    transfer: Transfer,
    replies: Seq<u32>,
    n: nat,
    register: Register,
    before: u32,
)
    ensures
        ({
            let refused = transaction_for(number, None, transfer);
            &&& refused.result() == Err::<Option<u32>, nb::Error<SpiError>>(
                nb::Error::Other(SpiError::NoSlaveSelect),
            )
            &&& refused.after(replies, n) == refused
            &&& refused.issued(replies, n) == None::<Command>
            &&& refused.register_after(replies, n, register, before) == before
        }),
{
    transaction_for(number, None, transfer).lemma_finished_stays(replies, n, register, before);
}

/// A transfer that moves nothing asks for the clock gate of its controller
/// and for nothing else. It writes no register, it gives no word, and it ends
/// with the first answer: with `NoClockRateSpecified` when the clock gate is
/// shut, and well when it is open.
pub proof fn lemma_nothing_moved_nothing_written(
    number: SpiNumber,
    lane: u8,
    transfer: Transfer,
    replies: Seq<u32>,
    n: nat,
    register: Register,
    before: u32,
)
    requires
        moves_nothing(transfer),
    ensures
        ({
            let begun = transaction_for(number, Some(lane), transfer);
            let now = begun.after(replies, n);
            &&& begun.plan == idle_plan(number)
            &&& begun.issued(replies, 0) == Some(Command::ReadClockEnable { number })
            &&& n >= 1 ==> begun.issued(replies, n) == None::<Command>
            &&& n >= 1 ==> now.result() == if replies[0] == 0 {
                Err::<Option<u32>, nb::Error<SpiError>>(
                    nb::Error::Other(SpiError::NoClockRateSpecified),
                )
            } else {
                Ok::<Option<u32>, nb::Error<SpiError>>(None)
            }
            &&& begun.register_after(replies, n, register, before) == before
            &&& now.value == None::<u32>
        }),
    decreases n,
{
    let begun = transaction_for(number, Some(lane), transfer);
    assert(begun.after(replies, 0) == begun);
    if n > 0 {
        lemma_nothing_moved_nothing_written(
            number,
            lane,
            transfer,
            replies,
            (n - 1) as nat,
            register,
            before,
        );
        begun.lemma_after_keeps_plan(replies, (n - 1) as nat);
    }
}

/// Every transfer on a chosen slave line begins by reading the clock gate of
/// its controller. With the clock gate shut the transfer ends with
/// `NoClockRateSpecified`: that one read is all it ever asked for, and no
/// register changes.
pub proof fn lemma_shut_clock_is_refused(
    number: SpiNumber,
    lane: u8,
    transfer: Transfer,
    replies: Seq<u32>,
    n: nat,
    register: Register,
    before: u32,
)
    requires
        lane <= MAX_SLAVE_SELECT,
        replies.len() > 0,
        replies[0] == 0,
        n >= 1,
    ensures
        ({
            let begun = transaction_for(number, Some(lane), transfer);
            &&& begun.issued(replies, 0) == Some(Command::ReadClockEnable { number })
            &&& begun.after(replies, n).result() == Err::<Option<u32>, nb::Error<SpiError>>(
                nb::Error::Other(SpiError::NoClockRateSpecified),
            )
            &&& begun.issued(replies, n) == None::<Command>
            &&& begun.register_after(replies, n, register, before) == before
        }),
    decreases n,
{
    lemma_plan_shape(number, lane, transfer);
    let begun = transaction_for(number, Some(lane), transfer);
    assert(begun.after(replies, 0) == begun);
    assert(begun.register_after(replies, 0, register, before) == before);
    if moves_nothing(transfer) {
        lemma_nothing_moved_nothing_written(number, lane, transfer, replies, n, register, before);
    } else if n > 1 {
        lemma_shut_clock_is_refused(
            number,
            lane,
            transfer,
            replies,
            (n - 1) as nat,
            register,
            before,
        );
    }
}

/// With the clock gate open, a transfer on a chosen slave line never fails:
/// it goes on, or it waits.
pub proof fn lemma_open_clock_never_fails(
    number: SpiNumber,
    lane: u8,
    transfer: Transfer,
    replies: Seq<u32>,
    n: nat,
)
    requires
        lane <= MAX_SLAVE_SELECT,
        replies.len() > 0,
        replies[0] != 0,
    ensures
        transaction_for(number, Some(lane), transfer).after(replies, n).failure == None::<
            SpiError,
        >,
    decreases n,
{
    let begun = transaction_for(number, Some(lane), transfer);
    if n > 0 {
        lemma_open_clock_never_fails(number, lane, transfer, replies, (n - 1) as nat);
        if moves_nothing(transfer) {
            lemma_nothing_moved_nothing_written(
                number,
                lane,
                transfer,
                replies,
                n,
                Register::Ser,
                0,
            );
        }
        let earlier = begun.after(replies, (n - 1) as nat);
        begun.lemma_after_keeps_plan(replies, (n - 1) as nat);
        if !moves_nothing(transfer) {
            lemma_plan_shape(number, lane, transfer);
            if n > 1 {
                assert(begun.after(replies, 1) == begun.advance(replies[0])) by {
                    assert(begun.after(replies, 0) == begun);
                }
                begun.lemma_after_is_monotone(replies, 1, (n - 1) as nat);
                assert(earlier.pc >= 1);
            }
        }
    }
}

/// On hardware that is ready whenever it is asked, every transfer on a
/// chosen slave line comes to a good end, and within twice as many commands as
/// its plan has steps: the clock gate open, room in the transmit FIFO, a word
/// in the receive FIFO and the wire idle are all that a transfer waits for.
pub proof fn lemma_ready_hardware_completes(
    number: SpiNumber,
    lane: u8,
    transfer: Transfer,
    replies: Seq<u32>,
)
    requires
        lane <= MAX_SLAVE_SELECT,
        forall|i: int|
            0 <= i < 2 * transaction_for(number, Some(lane), transfer).plan.len() ==> ready(
                #[trigger] replies[i],
            ),
    ensures
        transaction_for(number, Some(lane), transfer).after(
            replies,
            2 * transaction_for(number, Some(lane), transfer).plan.len(),
        ).result() is Ok,
{
    let begun = transaction_for(number, Some(lane), transfer);
    begun.lemma_ready_run_advances(replies, begun.plan.len());
    begun.lemma_after_keeps_plan(replies, 2 * begun.plan.len());
}

/// The slave lines are not released while the wire is busy. In a transfer
/// that waits for the wire, the command that releases them is only ever
/// performed right after a read of the status register, and the status read
/// said that the transmit FIFO was empty and the controller idle.
pub proof fn lemma_release_follows_idle(
    number: SpiNumber,
    lane: u8,
    transfer: Transfer,
    replies: Seq<u32>,
    i: nat,
)
    requires
        lane <= MAX_SLAVE_SELECT,
        waits_for_idle(transfer),
        transaction_for(number, Some(lane), transfer).issued(replies, i) == Some(
            release_command(),
        ),
    ensures
        i >= 1,
        transaction_for(number, Some(lane), transfer).issued(replies, (i - 1) as nat) == Some(
            Command::Read { register: Register::Sr },
        ),
        transmit_idle(replies[i - 1]),
{
    lemma_plan_shape(number, lane, transfer);
    let begun = transaction_for(number, Some(lane), transfer);
    let plan = transfer_plan(number, lane, transfer);
    let len = plan.len() as int;
    let now = begun.after(replies, i);
    begun.lemma_after_keeps_plan(replies, i);
    assert(now.op() == write_to(Register::Ser, 0x00));
    assert(now.pc == len - 2);
    assert(begun.after(replies, 0) == begun);
    let earlier = begun.after(replies, (i - 1) as nat);
    begun.lemma_after_keeps_plan(replies, (i - 1) as nat);
    earlier.lemma_advance_is_one_step(replies[i - 1]);
    assert(earlier.pc == len - 3);
}

/// While the status register reports the wire busy, a transfer that waits for
/// the wire neither comes to a good end nor releases the slave lines, however
/// long it is run and whatever the other registers answer.
pub proof fn lemma_busy_wire_holds_transfer(
    number: SpiNumber,
    lane: u8,
    transfer: Transfer,
    replies: Seq<u32>,
    n: nat,
)
    requires
        lane <= MAX_SLAVE_SELECT,
        waits_for_idle(transfer),
        forall|i: nat|
            i < n && #[trigger] transaction_for(number, Some(lane), transfer).issued(replies, i)
                == Some(Command::Read { register: Register::Sr }) ==> !transmit_idle(
                replies[i as int],
            ),
    ensures
        !(transaction_for(number, Some(lane), transfer).after(replies, n).result() is Ok),
        forall|i: nat|
            i <= n ==> #[trigger] transaction_for(number, Some(lane), transfer).issued(replies, i)
                != Some(release_command()),
{
    lemma_plan_shape(number, lane, transfer);
    let begun = transaction_for(number, Some(lane), transfer);
    let plan = transfer_plan(number, lane, transfer);
    let len = plan.len() as int;
    assert forall|i: nat| i <= n implies #[trigger] begun.issued(replies, i) != Some(
        release_command(),
    ) by {
        if begun.issued(replies, i) == Some(release_command()) {
            lemma_release_follows_idle(number, lane, transfer, replies, i);
        }
    }
    let end = begun.after(replies, n);
    begun.lemma_after_keeps_plan(replies, n);
    if end.result() is Ok {
        let i = begun.lemma_steps_are_passed(replies, n, (len - 2) as nat);
        begun.lemma_after_keeps_plan(replies, i);
        assert(begun.issued(replies, i) == Some(release_command()));
    }
}

/// What the slave select register holds during a run, as far as the run
/// has come: what it held before while only the clock gate was looked at,
/// and zero from the release on.
proof fn lemma_select_register(
    number: SpiNumber,
    lane: u8,
    transfer: Transfer,
    replies: Seq<u32>,
    n: nat,
    before: u32,
)
    requires
        lane <= MAX_SLAVE_SELECT,
        !moves_nothing(transfer),
    ensures
        ({
            let begun = transaction_for(number, Some(lane), transfer);
            let now = begun.after(replies, n);
            let held = begun.register_after(replies, n, Register::Ser, before);
            &&& now.pc == 0 ==> held == before
            &&& now.failure is Some ==> now.pc == 0
            &&& now.pc >= begun.plan.len() - 1 ==> held == 0
        }),
    decreases n,
{
    lemma_plan_shape(number, lane, transfer);
    let begun = transaction_for(number, Some(lane), transfer);
    if n > 0 {
        lemma_select_register(number, lane, transfer, replies, (n - 1) as nat, before);
        let earlier = begun.after(replies, (n - 1) as nat);
        begun.lemma_after_keeps_plan(replies, (n - 1) as nat);
        earlier.lemma_advance_is_one_step(replies[n - 1]);
    }
}

/// What the enable register holds when a run has come through its plan:
/// zero.
proof fn lemma_enable_register(
    number: SpiNumber,
    lane: u8,
    transfer: Transfer,
    replies: Seq<u32>,
    n: nat,
    before: u32,
)
    requires
        lane <= MAX_SLAVE_SELECT,
        !moves_nothing(transfer),
    ensures
        ({
            let begun = transaction_for(number, Some(lane), transfer);
            begun.after(replies, n).pc >= begun.plan.len() ==> begun.register_after(
                replies,
                n,
                Register::Ssienr,
                before,
            ) == 0
        }),
    decreases n,
{
    lemma_plan_shape(number, lane, transfer);
    let begun = transaction_for(number, Some(lane), transfer);
    if n > 0 {
        lemma_enable_register(number, lane, transfer, replies, (n - 1) as nat, before);
        let earlier = begun.after(replies, (n - 1) as nat);
        begun.lemma_after_keeps_plan(replies, (n - 1) as nat);
        earlier.lemma_advance_is_one_step(replies[n - 1]);
    }
}

/// After a transfer that moved something and came to a good end the slave
/// select register holds zero and so does the enable register: every line is
/// released and the controller is disabled, whichever way the data went,
/// through the FIFO or by DMA. And a transfer that ended in any way has left
/// the lines released if it found them so.
pub proof fn lemma_finished_transfer_releases(
    number: SpiNumber,
    lane: u8,
    transfer: Transfer,
    replies: Seq<u32>,
    n: nat,
    before: u32,
)
    requires
        lane <= MAX_SLAVE_SELECT,
        transaction_for(number, Some(lane), transfer).after(replies, n).finished(),
    ensures
        ({
            let begun = transaction_for(number, Some(lane), transfer);
            let held = begun.register_after(replies, n, Register::Ser, before);
            let enabled = begun.register_after(replies, n, Register::Ssienr, before);
            &&& begun.after(replies, n).result() is Ok && !moves_nothing(transfer) ==> held == 0
                && enabled == 0
            &&& before == 0 ==> held == 0
        }),
{
    if moves_nothing(transfer) {
        lemma_nothing_moved_nothing_written(
            number,
            lane,
            transfer,
            replies,
            n,
            Register::Ser,
            before,
        );
    } else {
        lemma_select_register(number, lane, transfer, replies, n, before);
        lemma_enable_register(number, lane, transfer, replies, n, before);
        transaction_for(number, Some(lane), transfer).lemma_after_keeps_plan(replies, n);
    }
}

/// The word that a run has received by the time it has come beyond the step
/// that pops it: the answer to that step, held down to the limit.
proof fn lemma_word_is_kept(
    number: SpiNumber,
    lane: u8,
    transfer: Transfer,
    replies: Seq<u32>,
    n: nat,
)
    requires
        lane <= MAX_SLAVE_SELECT,
        !moves_nothing(transfer),
    ensures
        ({
            let begun = transaction_for(number, Some(lane), transfer);
            let now = begun.after(replies, n);
            &&& !(transfer is ReadWord) ==> now.value == None::<u32>
            &&& transfer is ReadWord && now.pc <= begun.plan.len() - 3 ==> now.value == None::<u32>
            &&& transfer is ReadWord && now.pc > begun.plan.len() - 3 ==> exists|i: nat|
                {
                    &&& i < n
                    &&& #[trigger] begun.issued(replies, i) == Some(
                        Command::Read { register: Register::Dr },
                    )
                    &&& now.value == Some(saturate(replies[i as int], transfer->ReadWord_0))
                }
        }),
    decreases n,
{
    lemma_plan_shape(number, lane, transfer);
    let begun = transaction_for(number, Some(lane), transfer);
    if n > 0 {
        lemma_word_is_kept(number, lane, transfer, replies, (n - 1) as nat);
        let earlier = begun.after(replies, (n - 1) as nat);
        let now = begun.after(replies, n);
        begun.lemma_after_keeps_plan(replies, (n - 1) as nat);
        earlier.lemma_advance_is_one_step(replies[n - 1]);
        if transfer is ReadWord && now.pc > begun.plan.len() - 3 {
            if earlier.pc > begun.plan.len() - 3 {
                let i = choose|i: nat|
                    {
                        &&& i < n - 1
                        &&& #[trigger] begun.issued(replies, i) == Some(
                            Command::Read { register: Register::Dr },
                        )
                        &&& earlier.value == Some(
                            saturate(replies[i as int], transfer->ReadWord_0),
                        )
                    };
                assert(begun.issued(replies, i) == Some(Command::Read { register: Register::Dr }));
            } else {
                assert(begun.issued(replies, (n - 1) as nat) == Some(
                    Command::Read { register: Register::Dr },
                ));
            }
        }
    }
}

/// A read of one word that came to a good end gives a word: the one the
/// hardware answered when the receive FIFO was popped, or the limit where
/// that word lies above it. So the word given never lies above the limit.
pub proof fn lemma_word_read_is_held_down(
    number: SpiNumber,
    lane: u8,
    limit: u32,
    replies: Seq<u32>,
    n: nat,
)
    requires
        lane <= MAX_SLAVE_SELECT,
        transaction_for(number, Some(lane), Transfer::ReadWord(limit)).after(
            replies,
            n,
        ).result() is Ok,
    ensures
        exists|i: nat|
            {
                &&& i < n
                &&& #[trigger] transaction_for(
                    number,
                    Some(lane),
                    Transfer::ReadWord(limit),
                ).issued(replies, i) == Some(Command::Read { register: Register::Dr })
                &&& transaction_for(number, Some(lane), Transfer::ReadWord(limit)).after(
                    replies,
                    n,
                ).result() == Ok::<Option<u32>, nb::Error<SpiError>>(
                    Some(saturate(replies[i as int], limit)),
                )
            },
        transaction_for(number, Some(lane), Transfer::ReadWord(limit)).after(
            replies,
            n,
        ).value->0 <= limit,
{
    lemma_word_is_kept(number, lane, Transfer::ReadWord(limit), replies, n);
    lemma_plan_shape(number, lane, Transfer::ReadWord(limit));
    transaction_for(number, Some(lane), Transfer::ReadWord(limit)).lemma_after_keeps_plan(
        replies,
        n,
    );
}

/// A transfer that sends, or that receives by DMA, gives no word when it
/// comes to its end.
pub proof fn lemma_nothing_read_without_pop(
    number: SpiNumber,
    select: Option<u8>,
    transfer: Transfer,
    replies: Seq<u32>,
    n: nat,
)
    requires
        selectable(select),
        !(transfer is ReadWord),
    ensures
        transaction_for(number, select, transfer).after(replies, n).value == None::<u32>,
{
    let begun = transaction_for(number, select, transfer);
    if select is None {
        begun.lemma_finished_stays(replies, n, Register::Ser, 0);
    } else if moves_nothing(transfer) {
        lemma_nothing_moved_nothing_written(
            number,
            select->0,
            transfer,
            replies,
            n,
            Register::Ser,
            0,
        );
    } else {
        lemma_word_is_kept(number, select->0, transfer, replies, n);
    }
}

/// A word is popped only when it is there. In the read of a single word,
/// the read of the data register comes right after a read of the fill level of
/// the receive FIFO that reported at least one entry.
pub proof fn lemma_pop_follows_arrival(
    number: SpiNumber,
    lane: u8,
    limit: u32,
    replies: Seq<u32>,
    i: nat,
)
    requires
        lane <= MAX_SLAVE_SELECT,
        transaction_for(number, Some(lane), Transfer::ReadWord(limit)).issued(replies, i) == Some(
            Command::Read { register: Register::Dr },
        ),
    ensures
        i >= 1,
        transaction_for(number, Some(lane), Transfer::ReadWord(limit)).issued(
            replies,
            (i - 1) as nat,
        ) == Some(Command::Read { register: Register::Rxflr }),
        replies[i - 1] != 0,
{
    let transfer = Transfer::ReadWord(limit);
    lemma_plan_shape(number, lane, transfer);
    let begun = transaction_for(number, Some(lane), transfer);
    let len = begun.plan.len() as int;
    let now = begun.after(replies, i);
    begun.lemma_after_keeps_plan(replies, i);
    assert(now.op() is Pop);
    assert(now.pc == len - 3);
    assert(begun.after(replies, 0) == begun);
    let earlier = begun.after(replies, (i - 1) as nat);
    begun.lemma_after_keeps_plan(replies, (i - 1) as nat);
    earlier.lemma_advance_is_one_step(replies[i - 1]);
    assert(earlier.pc == len - 4);
}

/// In the read of a single word the slave lines are released right after
/// the word was popped, and not before.
pub proof fn lemma_release_follows_pop(
    number: SpiNumber,
    lane: u8,
    limit: u32,
    replies: Seq<u32>,
    i: nat,
)
    requires
        lane <= MAX_SLAVE_SELECT,
        transaction_for(number, Some(lane), Transfer::ReadWord(limit)).issued(replies, i) == Some(
            release_command(),
        ),
    ensures
        i >= 1,
        transaction_for(number, Some(lane), Transfer::ReadWord(limit)).issued(
            replies,
            (i - 1) as nat,
        ) == Some(Command::Read { register: Register::Dr }),
{
    let transfer = Transfer::ReadWord(limit);
    lemma_plan_shape(number, lane, transfer);
    let begun = transaction_for(number, Some(lane), transfer);
    let len = begun.plan.len() as int;
    let now = begun.after(replies, i);
    begun.lemma_after_keeps_plan(replies, i);
    assert(now.op() == write_to(Register::Ser, 0x00));
    assert(now.pc == len - 2);
    assert(begun.after(replies, 0) == begun);
    let earlier = begun.after(replies, (i - 1) as nat);
    begun.lemma_after_keeps_plan(replies, (i - 1) as nat);
    earlier.lemma_advance_is_one_step(replies[i - 1]);
    assert(earlier.pc == len - 3);
}

/// The DMA channel that a transfer moves its words by.
pub open spec fn channel_of(transfer: Transfer) -> DmacChannel
    recommends
        transfer is SendDma || transfer is RecvDma,
{
    match transfer {
        Transfer::SendDma { channel, .. } => channel,
        Transfer::RecvDma { channel, .. } => channel,
        _ => DmacChannel::Channel0,
    }
}

/// By DMA, too, the wire has the last word. The slave lines are released
/// only after the DMA channel was waited for, and, as in every transfer that
/// waits for the wire, after the status said that the wire is idle: that the
/// channel is done says that the FIFO has the words, not that they are out.
pub proof fn lemma_release_follows_channel(
    number: SpiNumber,
    lane: u8,
    transfer: Transfer,
    replies: Seq<u32>,
    i: nat,
)
    requires
        lane <= MAX_SLAVE_SELECT,
        transfer is SendDma || transfer is RecvDma,
        transaction_for(number, Some(lane), transfer).issued(replies, i) == Some(
            release_command(),
        ),
    ensures
        exists|j: nat|
            j + 1 < i && #[trigger] transaction_for(number, Some(lane), transfer).issued(
                replies,
                j,
            ) == Some(Command::WaitDone { channel: channel_of(transfer) }),
        transaction_for(number, Some(lane), transfer).issued(replies, (i - 1) as nat) == Some(
            Command::Read { register: Register::Sr },
        ),
        transmit_idle(replies[i - 1]),
{
    if moves_nothing(transfer) {
        lemma_nothing_moved_nothing_written(
            number,
            lane,
            transfer,
            replies,
            i,
            Register::Ser,
            0,
        );
    }
    lemma_release_follows_idle(number, lane, transfer, replies, i);
    lemma_plan_shape(number, lane, transfer);
    let begun = transaction_for(number, Some(lane), transfer);
    let plan = transfer_plan(number, lane, transfer);
    let steps = transfer_steps(number, lane, transfer);
    let len = plan.len() as int;
    assert(plan[len - 4] == steps[len - 5]);
    begun.lemma_after_keeps_plan(replies, i);
    assert(begun.after(replies, i).op() == write_to(Register::Ser, 0x00));
    let j = begun.lemma_steps_are_passed(replies, i, (len - 4) as nat);
    begun.lemma_after_keeps_plan(replies, j);
    assert(begun.issued(replies, j) == Some(Command::WaitDone { channel: channel_of(transfer) }));
    begun.lemma_after_is_monotone(replies, j + 1, (i - 1) as nat);
    begun.lemma_after_keeps_plan(replies, (i - 1) as nat);
}

/// The step of its plan at which a transfer asserts the slave line.
spec fn assert_step(transfer: Transfer) -> int {
    match transfer {
        Transfer::SendDma { .. } => 5,
        Transfer::RecvDma { .. } => 7,
        _ => 1,
    }
}

/// Where the slave line is asserted in a plan, and that every step that
/// looks at the controller comes later.
proof fn lemma_assert_step(number: SpiNumber, lane: u8, transfer: Transfer)
    requires
        lane <= MAX_SLAVE_SELECT,
    ensures
        ({
            let plan = transfer_plan(number, lane, transfer);
            let at = assert_step(transfer);
            &&& 0 < at < plan.len() - 2
            &&& plan[at] == write_to(Register::Ser, select_bits(lane))
            &&& forall|k: int|
                at < k < plan.len() - 2 ==> !(#[trigger] plan[k] matches Op::Issue(
                    Command::Write { register, .. },
                ) && register == Register::Ser)
            &&& forall|k: int|
                0 < k < at ==> #[trigger] plan[k] is Issue && !(plan[k]->Issue_0.observes())
        }),
{
    let plan = transfer_plan(number, lane, transfer);
    let steps = transfer_steps(number, lane, transfer);
    let at = assert_step(transfer);
    assert(plan[at] == steps[at - 1]);
    assert forall|k: int| at < k < plan.len() - 2 implies !(#[trigger] plan[k] matches Op::Issue(
        Command::Write { register, .. },
    ) && register == Register::Ser) by {
        assert(plan[k] == steps[k - 1]);
    }
    assert forall|k: int| 0 < k < at implies #[trigger] plan[k] is Issue && !(
    plan[k]->Issue_0.observes()) by {
        assert(plan[k] == steps[k - 1]);
    }
}

/// What the slave select register holds while a run stands between the
/// step that asserts the line and the step that releases it.
proof fn lemma_line_is_held(
    number: SpiNumber,
    lane: u8,
    transfer: Transfer,
    replies: Seq<u32>,
    n: nat,
    before: u32,
)
    requires
        lane <= MAX_SLAVE_SELECT,
        !moves_nothing(transfer),
    ensures
        ({
            let begun = transaction_for(number, Some(lane), transfer);
            let now = begun.after(replies, n);
            assert_step(transfer) < now.pc <= begun.plan.len() - 2 ==> begun.register_after(
                replies,
                n,
                Register::Ser,
                before,
            ) == select_bits(lane)
        }),
    decreases n,
{
    lemma_assert_step(number, lane, transfer);
    let begun = transaction_for(number, Some(lane), transfer);
    if n > 0 {
        lemma_line_is_held(number, lane, transfer, replies, (n - 1) as nat, before);
        let earlier = begun.after(replies, (n - 1) as nat);
        begun.lemma_after_keeps_plan(replies, (n - 1) as nat);
        earlier.lemma_advance_is_one_step(replies[n - 1]);
    }
}

/// The hardware is looked at only while the slave line is asserted. After
/// the look at the clock gate, every register that a transfer reads, and the
/// wait for the DMA channel, finds the slave select register holding the bit
/// of the chosen line and no other. The same holds of every word pushed by a
/// transfer through the FIFO.
pub proof fn lemma_line_asserted_when_observed(
    number: SpiNumber,
    lane: u8,
    transfer: Transfer,
    replies: Seq<u32>,
    i: nat,
    before: u32,
)
    requires
        lane <= MAX_SLAVE_SELECT,
        transaction_for(number, Some(lane), transfer).issued(replies, i) matches Some(command)
            && (command.observes() || (sends_through_fifo(transfer) && command.writes_to(
            Register::Dr,
        ))),
    ensures
        transaction_for(number, Some(lane), transfer).register_after(
            replies,
            i,
            Register::Ser,
            before,
        ) == select_bits(lane),
{
    let begun = transaction_for(number, Some(lane), transfer);
    if moves_nothing(transfer) {
        lemma_nothing_moved_nothing_written(
            number,
            lane,
            transfer,
            replies,
            i,
            Register::Ser,
            before,
        );
    }
    lemma_assert_step(number, lane, transfer);
    lemma_plan_shape(number, lane, transfer);
    lemma_line_is_held(number, lane, transfer, replies, i, before);
    let now = begun.after(replies, i);
    begun.lemma_after_keeps_plan(replies, i);
    assert(begun.after(replies, 0) == begun);
    assert(i >= 1);
    assert(begun.after(replies, 1) == begun.advance(replies[0]));
    begun.lemma_after_is_monotone(replies, 1, i);
    assert(now.pc >= 1);
    if sends_through_fifo(transfer) {
        lemma_fifo_plan_shape(number, lane, transfer);
    }
}

} // verus!
