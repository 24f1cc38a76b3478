//! Runs: a transaction and the answers fed to it, one by one.
//!
//! What a transaction does depends on what the hardware answers. The
//! functions here follow a transaction through a sequence of answers and tell
//! which commands were performed and what the registers hold by then; the
//! lemmas say what holds of every run, of any plan.

use vstd::prelude::*;
use crate::bus::{Command, Register};
use crate::transaction::{free_entries, transmit_idle, Op, TransactionView};

verus! {

impl TransactionView {
    /// The transaction after the first `n` of `replies` were fed to it, each
    /// in answer to the command pending at that moment.
    pub open spec fn after(self, replies: Seq<u32>, n: nat) -> Self
        decreases n,
    {
        if n == 0 {
            self
        } else {
            self.after(replies, (n - 1) as nat).advance(replies[n - 1])
        }
    }

    /// The command performed as the `i`-th of a run on `replies`, counted from
    /// zero; `None` when the transaction was finished by then.
    pub open spec fn issued(self, replies: Seq<u32>, i: nat) -> Option<Command> {
        self.after(replies, i).pending()
    }

    /// The value `register` holds after the first `n` commands of a run on
    /// `replies`, if it held `before` when the run began.
    pub open spec fn register_after(
        self,
        replies: Seq<u32>,
        n: nat,
        register: Register,
        before: u32,
    ) -> u32
        decreases n,
    {
        if n == 0 {
            before
        } else {
            let earlier = self.register_after(replies, (n - 1) as nat, register, before);
            match self.issued(replies, (n - 1) as nat) {
                Some(command) => command.effect(register, earlier),
                None => earlier,
            }
        }
    }

    /// The values written to `register` by the first `n` commands of a run on
    /// `replies`, in the order in which they were written.
    pub open spec fn written(self, replies: Seq<u32>, n: nat, register: Register) -> Seq<u32>
        decreases n,
    {
        if n == 0 {
            Seq::empty()
        } else {
            let earlier = self.written(replies, (n - 1) as nat, register);
            match self.issued(replies, (n - 1) as nat) {
                Some(Command::Write { register: target, value }) => if target == register {
                    earlier.push(value)
                } else {
                    earlier
                },
                _ => earlier,
            }
        }
    }
}

impl TransactionView {
    /// One answer moves a transaction by one step at most, and never changes
    /// its plan. A transaction that failed stays as it is.
    pub proof fn lemma_advance_is_one_step(self, reply: u32)
        ensures
            self.advance(reply).plan == self.plan,
            self.advance(reply).pc == self.pc || self.advance(reply).pc == self.pc + 1,
            self.advance(reply).pc != self.pc ==> !self.finished(),
            self.finished() ==> self.advance(reply) == self,
            self.pc <= self.plan.len() ==> self.advance(reply).pc <= self.plan.len(),
    {
    }

    /// However many answers a transaction takes, its plan stays the same and
    /// it never steps back, nor beyond the end of the plan.
    pub proof fn lemma_after_keeps_plan(self, replies: Seq<u32>, n: nat)
        ensures
            self.after(replies, n).plan == self.plan,
            self.after(replies, n).pc >= self.pc,
            self.pc <= self.plan.len() ==> self.after(replies, n).pc <= self.plan.len(),
        decreases n,
    {
        if n > 0 {
            self.lemma_after_keeps_plan(replies, (n - 1) as nat);
            self.after(replies, (n - 1) as nat).lemma_advance_is_one_step(replies[n - 1]);
        }
    }

    /// A transaction never steps back: what it had reached after `m` answers
    /// it still has after `n`, and if it had failed by then, it is the same
    /// after `n`.
    pub proof fn lemma_after_is_monotone(self, replies: Seq<u32>, m: nat, n: nat)
        requires
            m <= n,
        ensures
            self.after(replies, m).pc <= self.after(replies, n).pc,
            self.after(replies, m).finished() ==> self.after(replies, n) == self.after(replies, m),
        decreases n,
    {
        if m < n {
            self.lemma_after_is_monotone(replies, m, (n - 1) as nat);
            self.after(replies, (n - 1) as nat).lemma_advance_is_one_step(replies[n - 1]);
        }
    }

    /// A finished transaction takes answers without changing, asks for
    /// nothing, and leaves every register as it was.
    pub proof fn lemma_finished_stays(
        self,
        replies: Seq<u32>,
        n: nat,
        register: Register,
        before: u32,
    )
        requires
            self.finished(),
        ensures
            self.after(replies, n) == self,
            self.issued(replies, n) == None::<Command>,
            self.register_after(replies, n, register, before) == before,
        decreases n,
    {
        if n > 0 {
            self.lemma_finished_stays(replies, (n - 1) as nat, register, before);
        }
    }

    /// A transaction passes every step on its way: if after `n` answers it
    /// stands beyond step `k`, which it had not reached at the start, then at
    /// some moment before it stood at step `k`, unfinished, and the answer given
    /// at that moment took it to the next step.
    pub proof fn lemma_steps_are_passed(self, replies: Seq<u32>, n: nat, k: nat) -> (i: nat)
        requires
            self.pc <= k < self.after(replies, n).pc,
        ensures
            i < n,
            self.after(replies, i).pc == k,
            !self.after(replies, i).finished(),
            self.after(replies, i + 1).pc == k + 1,
        decreases n,
    {
        let earlier = self.after(replies, (n - 1) as nat);
        earlier.lemma_advance_is_one_step(replies[n - 1]);
        if earlier.pc > k {
            self.lemma_steps_are_passed(replies, (n - 1) as nat, k)
        } else {
            self.lemma_after_keeps_plan(replies, (n - 1) as nat);
            (n - 1) as nat
        }
    }
}

/// An answer that lets every step go on: it is not zero, it leaves room in
/// the transmit FIFO when taken as its fill level, and it reports the wire
/// idle when taken as the status.
pub open spec fn ready(reply: u32) -> bool {
    reply != 0 && free_entries(reply) > 0 && transmit_idle(reply)
}

impl TransactionView {
    /// On answers that are all ready, a transaction never fails and never
    /// waits: two answers take it at least one step further, until its plan
    /// is through.
    pub proof fn lemma_ready_run_advances(self, replies: Seq<u32>, k: nat)
        requires
            self.failure is None,
            forall|i: int| 0 <= i < 2 * k ==> ready(#[trigger] replies[i]),
        ensures
            self.after(replies, 2 * k).failure is None,
            self.after(replies, 2 * k).pc >= self.pc + k || self.after(replies, 2 * k).pc
                >= self.plan.len(),
        decreases k,
    {
        if k > 0 {
            self.lemma_ready_run_advances(replies, (k - 1) as nat);
            let first = self.after(replies, (2 * k - 2) as nat);
            let second = self.after(replies, (2 * k - 1) as nat);
            self.lemma_after_keeps_plan(replies, (2 * k - 2) as nat);
            assert(second == first.advance(replies[2 * k - 2]));
            assert(self.after(replies, 2 * k) == second.advance(replies[2 * k - 1]));
            assert(ready(replies[2 * k - 2]));
            assert(ready(replies[2 * k - 1]));
            first.lemma_advance_is_one_step(replies[2 * k - 2]);
            second.lemma_advance_is_one_step(replies[2 * k - 1]);
        }
    }
}

/// A plan without a wait and without a condition: each step performs its
/// command and goes on.
pub open spec fn straight(plan: Seq<Op>) -> bool {
    forall|k: int| 0 <= k < plan.len() ==> #[trigger] plan[k] is Issue
}

/// The value `register` holds when the first `k` steps of a straight plan
/// are done, if it held `before`.
pub open spec fn settled(plan: Seq<Op>, k: nat, register: Register, before: u32) -> u32
    decreases k,
{
    if k == 0 {
        before
    } else {
        let earlier = settled(plan, (k - 1) as nat, register, before);
        match plan[k - 1] {
            Op::Issue(command) => command.effect(register, earlier),
            _ => earlier,
        }
    }
}

impl TransactionView {
    /// A straight plan runs the same way whatever the hardware answers: one
    /// step for each answer until it is through, the commands as the plan
    /// lists them, and no failure.
    pub proof fn lemma_straight_run(
        plan: Seq<Op>,
        replies: Seq<u32>,
        n: nat,
        register: Register,
        before: u32,
    )
        requires
            straight(plan),
        ensures
            ({
                let begun = TransactionView::start(plan);
                let done = if n <= plan.len() {
                    n
                } else {
                    plan.len()
                };
                &&& begun.after(replies, n) == TransactionView { pc: done, ..begun }
                &&& n < plan.len() ==> begun.issued(replies, n) == Some(plan[n as int]->Issue_0)
                &&& n >= plan.len() ==> begun.issued(replies, n) == None::<Command>
                &&& begun.register_after(replies, n, register, before) == settled(
                    plan,
                    done,
                    register,
                    before,
                )
            }),
        decreases n,
    {
        if n > 0 {
            Self::lemma_straight_run(plan, replies, (n - 1) as nat, register, before);
        }
    }
}

} // verus!
