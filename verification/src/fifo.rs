//! What holds of the words that a transfer pushes through the transmit FIFO.
//!
//! The FIFO is the only buffer between the driver and the wire. A transfer
//! pushes a word only when the FIFO is known to have room for it, and it
//! pushes the words it was given, each once and in order.

use vstd::prelude::*;
use crate::bus::{Command, Register};
use crate::spi::{
    transaction_for, transfer_plan, transfer_steps, SpiNumber, Transfer, MAX_SLAVE_SELECT,
};
use crate::transaction::{free_entries, Op};

verus! {

/// The words that a transfer pushes through the transmit FIFO.
pub open spec fn words_pushed(transfer: Transfer) -> Seq<u32> {
    match transfer {
        Transfer::Send(words) => words,
        Transfer::SendWord(word) => seq![word],
        _ => Seq::empty(),
    }
}

/// Whether a transfer sends its words through the transmit FIFO.
pub open spec fn sends_through_fifo(transfer: Transfer) -> bool {
    transfer is Send || transfer is SendWord
}

/// The plan of a transfer that sends through the FIFO: after the look at the
/// clock gate and the two writes that open the transfer comes one push for
/// each word, in order, and nothing else touches the data register.
pub proof fn lemma_fifo_plan_shape(number: SpiNumber, lane: u8, transfer: Transfer)
    requires
        sends_through_fifo(transfer),
    ensures
        ({
            let plan = transfer_plan(number, lane, transfer);
            let words = words_pushed(transfer);
            &&& plan.len() == words.len() + 6
            &&& forall|k: int| 3 <= k < 3 + words.len() ==> #[trigger] plan[k] == Op::Push(words[k - 3])
            &&& forall|k: int|
                0 <= k < 3 || 3 + words.len() <= k < plan.len() ==> {
                    &&& !(#[trigger] plan[k] is Push)
                    &&& !(plan[k] matches Op::Issue(Command::Write { register, .. }) && register
                        == Register::Dr)
                }
        }),
{
    let plan = transfer_plan(number, lane, transfer);
    let steps = transfer_steps(number, lane, transfer);
    let words = words_pushed(transfer);
    assert(steps.len() == words.len() + 3);
    assert forall|k: int| 3 <= k < 3 + words.len() implies #[trigger] plan[k] == Op::Push(
        words[k - 3],
    ) by {
        assert(plan[k] == steps[k - 1]);
    }
    assert forall|k: int| 0 <= k < 3 || 3 + words.len() <= k < plan.len() implies {
        &&& !(#[trigger] plan[k] is Push)
        &&& !(plan[k] matches Op::Issue(Command::Write { register, .. }) && register
            == Register::Dr)
    } by {
        if 0 < k <= steps.len() {
            assert(plan[k] == steps[k - 1]);
        }
    }
}

/// How many of its words a run has pushed when it stands at step `pc`.
spec fn pushed_at(pc: nat, words: Seq<u32>) -> int {
    if pc < 3 {
        0
    } else if pc > 3 + words.len() {
        words.len() as int
    } else {
        pc - 3
    }
}

/// What a run through the FIFO has written to the data register, and what
/// it knows of the room in the FIFO, as far as the run has come.
proof fn lemma_fifo_run(
    number: SpiNumber,
    lane: u8,
    transfer: Transfer,
    replies: Seq<u32>,
    n: nat,
)
    requires
        sends_through_fifo(transfer),
    ensures
        ({
            let begun = transaction_for(number, Some(lane), transfer);
            let now = begun.after(replies, n);
            let words = words_pushed(transfer);
            let out = begun.written(replies, n, Register::Dr);
            &&& out == words.take(pushed_at(now.pc, words))
            &&& now.room > 0 ==> exists|j: nat|
                {
                    &&& j < n
                    &&& #[trigger] begun.issued(replies, j) == Some(
                        Command::Read { register: Register::Txflr },
                    )
                    &&& out.len() - begun.written(replies, j, Register::Dr).len() + now.room
                        == free_entries(replies[j as int])
                }
        }),
    decreases n,
{
    lemma_fifo_plan_shape(number, lane, transfer);
    let begun = transaction_for(number, Some(lane), transfer);
    let words = words_pushed(transfer);
    let now = begun.after(replies, n);
    let out = begun.written(replies, n, Register::Dr);
    if n == 0 {
        assert(out =~= words.take(0));
    } else {
        let m = (n - 1) as nat;
        lemma_fifo_run(number, lane, transfer, replies, m);
        let earlier = begun.after(replies, m);
        let out_earlier = begun.written(replies, m, Register::Dr);
        begun.lemma_after_keeps_plan(replies, m);
        earlier.lemma_advance_is_one_step(replies[m as int]);
        if earlier.finished() {
            assert(out == out_earlier);
        } else if earlier.op() is Push {
            let k = earlier.pc as int;
            assert(3 <= k < 3 + words.len());
            assert(earlier.op() == Op::Push(words[k - 3]));
            if earlier.room == 0 {
                assert(begun.issued(replies, m) == Some(
                    Command::Read { register: Register::Txflr },
                ));
                assert(out == out_earlier);
            } else {
                assert(out == out_earlier.push(words[k - 3]));
                assert(out =~= words.take(k - 3 + 1));
                if now.room > 0 {
                    let j = choose|j: nat|
                        {
                            &&& j < m
                            &&& #[trigger] begun.issued(replies, j) == Some(
                                Command::Read { register: Register::Txflr },
                            )
                            &&& out_earlier.len() - begun.written(
                                replies,
                                j,
                                Register::Dr,
                            ).len() + earlier.room == free_entries(replies[j as int])
                        };
                    assert(begun.issued(replies, j) == Some(
                        Command::Read { register: Register::Txflr },
                    ));
                }
            }
        } else {
            assert(out == out_earlier);
            assert(pushed_at(now.pc, words) == pushed_at(earlier.pc, words));
            if now.room > 0 {
                let j = choose|j: nat|
                    {
                        &&& j < m
                        &&& #[trigger] begun.issued(replies, j) == Some(
                            Command::Read { register: Register::Txflr },
                        )
                        &&& out_earlier.len() - begun.written(replies, j, Register::Dr).len()
                            + earlier.room == free_entries(replies[j as int])
                    };
                assert(begun.issued(replies, j) == Some(
                    Command::Read { register: Register::Txflr },
                ));
            }
        }
    }
}

/// The words of a transfer through the FIFO go out in order. At any moment
/// of a run the words written to the data register so far are the first of
/// the words to send, and when the transfer has come to a good end they are
/// all of them, each once.
pub proof fn lemma_words_go_out_in_order(
    number: SpiNumber,
    lane: u8,
    transfer: Transfer,
    replies: Seq<u32>,
    n: nat,
)
    requires
        lane <= MAX_SLAVE_SELECT,
        sends_through_fifo(transfer),
    ensures
        ({
            let begun = transaction_for(number, Some(lane), transfer);
            let out = begun.written(replies, n, Register::Dr);
            &&& out.len() <= words_pushed(transfer).len()
            &&& out == words_pushed(transfer).take(out.len() as int)
            &&& begun.after(replies, n).result() is Ok ==> out == words_pushed(transfer)
        }),
{
    lemma_fifo_run(number, lane, transfer, replies, n);
    lemma_fifo_plan_shape(number, lane, transfer);
    let begun = transaction_for(number, Some(lane), transfer);
    let words = words_pushed(transfer);
    begun.lemma_after_keeps_plan(replies, n);
    if begun.after(replies, n).result() is Ok {
        assert(words.take(words.len() as int) =~= words);
    }
}

/// The transmit FIFO is never overrun. Whenever a word is pushed, the fill
/// level was read before, and counting from that read, this word included,
/// no more words were pushed than the FIFO then had entries free.
pub proof fn lemma_fifo_is_never_overrun(
    number: SpiNumber,
    lane: u8,
    transfer: Transfer,
    replies: Seq<u32>,
    i: nat,
)
    requires
        lane <= MAX_SLAVE_SELECT,
        sends_through_fifo(transfer),
        transaction_for(number, Some(lane), transfer).issued(replies, i) matches Some(command)
            && command.writes_to(Register::Dr),
    ensures
        exists|j: nat|
            {
                &&& j < i
                &&& #[trigger] transaction_for(number, Some(lane), transfer).issued(replies, j)
                    == Some(Command::Read { register: Register::Txflr })
                &&& transaction_for(number, Some(lane), transfer).written(
                    replies,
                    i + 1,
                    Register::Dr,
                ).len() - transaction_for(number, Some(lane), transfer).written(
                    replies,
                    j,
                    Register::Dr,
                ).len() <= free_entries(replies[j as int])
            },
{
    lemma_fifo_run(number, lane, transfer, replies, i);
    lemma_fifo_plan_shape(number, lane, transfer);
    let begun = transaction_for(number, Some(lane), transfer);
    let now = begun.after(replies, i);
    begun.lemma_after_keeps_plan(replies, i);
    assert(now.op() is Push);
    assert(now.room > 0);
    let j = choose|j: nat|
        {
            &&& j < i
            &&& #[trigger] begun.issued(replies, j) == Some(
                Command::Read { register: Register::Txflr },
            )
            &&& begun.written(replies, i, Register::Dr).len() - begun.written(
                replies,
                j,
                Register::Dr,
            ).len() + now.room == free_entries(replies[j as int])
        };
    assert(begun.issued(replies, j) == Some(Command::Read { register: Register::Txflr }));
    assert(begun.written(replies, i + 1, Register::Dr).len() == begun.written(
        replies,
        i,
        Register::Dr,
    ).len() + 1);
}

/// A transfer goes one way: through the FIFO or by DMA, never both. A plan
/// that pushes a word has no step for the DMA controller.
pub proof fn lemma_one_path(number: SpiNumber, lane: u8, transfer: Transfer, j: int, k: int)
    requires
        0 <= j < transfer_plan(number, lane, transfer).len(),
        0 <= k < transfer_plan(number, lane, transfer).len(),
        transfer_plan(number, lane, transfer)[j] is Push,
    ensures
        sends_through_fifo(transfer),
        !(transfer_plan(number, lane, transfer)[k] matches Op::Issue(command)
            && command.is_dma()),
{
    let plan = transfer_plan(number, lane, transfer);
    let steps = transfer_steps(number, lane, transfer);
    if 0 < j <= steps.len() {
        assert(plan[j] == steps[j - 1]);
    }
    assert(sends_through_fifo(transfer));
    lemma_fifo_plan_shape(number, lane, transfer);
    if 0 < k <= steps.len() {
        assert(plan[k] == steps[k - 1]);
    }
}

} // verus!
