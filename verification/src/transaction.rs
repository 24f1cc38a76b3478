//! Transactions: the driver's side of a conversation with the controller.
//!
//! A transaction is a plan, a list of steps, and a position in it. At any
//! moment it either names one [`Command`] that the platform is to perform next,
//! or it is finished. The platform answers each command with one word, and
//! [`Transaction::advance`] decides from the answer whether the same step is
//! tried again (a busy-wait), the next one is taken, or the transaction fails.
//! Nothing here loops on hardware: a stalled controller shows as a transaction
//! that names the same read for ever.

use vstd::prelude::*;
use crate::bus::{Command, Register};
use crate::spi::{SpiError, SpiNumber};

verus! {

/// `nb::Error`, the error type of the `nb` crate, made known to the verifier
/// as the enum that the crate defines: `Other`, with the error of the
/// operation itself, and `WouldBlock`, the notice that the operation has not
/// come to its end yet. Nothing more is claimed of it.
#[verifier::external_type_specification]
#[verifier::reject_recursive_types(E)]
pub struct ExNbError<E>(nb::Error<E>);

/// Number of entries of the transmit FIFO, and of the receive FIFO.
pub const FIFO_DEPTH: u32 = 32;

/// The status word says that the transmit FIFO is empty and the controller is
/// not busy: bit 2 is set and bit 0 is clear.
pub open spec fn transmit_idle(status: u32) -> bool {
    status & 0x05 == 0x04
}

/// Entries of the transmit FIFO that are free when it reports `level` entries
/// in use. A level beyond the depth leaves none.
pub open spec fn free_entries(level: u32) -> nat {
    if level >= FIFO_DEPTH {
        0
    } else {
        (FIFO_DEPTH - level) as nat
    }
}

/// A word popped from the receive FIFO, held down to `limit`: a word above
/// the limit becomes the limit, no bit is cut off.
pub open spec fn saturate(raw: u32, limit: u32) -> u32 {
    if raw > limit {
        limit
    } else {
        raw
    }
}

/// One step of a plan.
#[derive(Clone, Copy, Debug, PartialEq, Eq, Structural)]
pub enum Op {
    /// Perform the command and go on, whatever the answer.
    Issue(Command),
    /// Read the clock gate of the controller. Go on when it is open; fail with
    /// `NoClockRateSpecified` when it is shut.
    RequireClock(SpiNumber),
    /// Push one word into the transmit FIFO. While no entry is known to be
    /// free, read the fill level instead.
    Push(u32),
    /// Read the status until it says that everything has left the wire.
    AwaitIdle,
    /// Read the fill level of the receive FIFO until it holds a word.
    AwaitReceive,
    /// Pop a word from the receive FIFO and keep it, held down to the limit.
    Pop(u32),
}

/// What a transaction is, as a mathematical value.
pub struct TransactionView {
    /// The steps, in order.
    pub plan: Seq<Op>,
    /// How many steps are done.
    pub pc: nat,
    /// Entries of the transmit FIFO known to be free.
    pub room: nat,
    /// The word received, once one was popped.
    pub value: Option<u32>,
    /// The error the transaction ended with, if it did.
    pub failure: Option<SpiError>,
}

impl TransactionView {
    /// A transaction about to take the first step of `plan`.
    pub open spec fn start(plan: Seq<Op>) -> Self {
        TransactionView { plan, pc: 0, room: 0, value: None, failure: None }
    }

    /// A transaction that was refused before it asked for anything.
    pub open spec fn refused(error: SpiError) -> Self {
        TransactionView { plan: Seq::empty(), pc: 0, room: 0, value: None, failure: Some(error) }
    }

    /// Nothing is left to do: the plan is through, or the transaction failed.
    pub open spec fn finished(self) -> bool {
        self.failure is Some || self.pc >= self.plan.len()
    }

    /// The step the transaction stands at.
    pub open spec fn op(self) -> Op
        recommends
            !self.finished(),
    {
        self.plan[self.pc as int]
    }

    /// The command that the step at hand asks for.
    pub open spec fn command(self) -> Command
        recommends
            !self.finished(),
    {
        match self.op() {
            Op::Issue(command) => command,
            Op::RequireClock(number) => Command::ReadClockEnable { number },
            Op::Push(word) => if self.room == 0 {
                Command::Read { register: Register::Txflr }
            } else {
                Command::Write { register: Register::Dr, value: word }
            },
            Op::AwaitIdle => Command::Read { register: Register::Sr },
            Op::AwaitReceive => Command::Read { register: Register::Rxflr },
            Op::Pop(_) => Command::Read { register: Register::Dr },
        }
    }

    /// The command to perform next, or `None` when the transaction is finished.
    pub open spec fn pending(self) -> Option<Command> {
        if self.finished() {
            None
        } else {
            Some(self.command())
        }
    }

    /// The same transaction, one step further.
    pub open spec fn next(self) -> Self {
        TransactionView { pc: self.pc + 1, ..self }
    }

    /// The transaction after the platform answered the pending command with
    /// `reply`. A finished transaction stays as it is.
    pub open spec fn advance(self, reply: u32) -> Self {
        if self.finished() {
            self
        } else {
            match self.op() {
                Op::Issue(_) => self.next(),
                Op::RequireClock(_) => if reply == 0 {
                    TransactionView { failure: Some(SpiError::NoClockRateSpecified), ..self }
                } else {
                    self.next()
                },
                Op::Push(_) => if self.room == 0 {
                    TransactionView { room: free_entries(reply), ..self }
                } else {
                    TransactionView { room: (self.room - 1) as nat, ..self.next() }
                },
                Op::AwaitIdle => if transmit_idle(reply) {
                    self.next()
                } else {
                    self
                },
                Op::AwaitReceive => if reply != 0 {
                    self.next()
                } else {
                    self
                },
                Op::Pop(limit) => TransactionView {
                    value: Some(saturate(reply, limit)),
                    ..self.next()
                },
            }
        }
    }

    /// How the transaction ended: with the word received, if it was to receive
    /// one, or with its error. A transaction that is not finished would block.
    pub open spec fn result(self) -> Result<Option<u32>, nb::Error<SpiError>> {
        match self.failure {
            Some(error) => Err(nb::Error::Other(error)),
            None => if self.pc >= self.plan.len() {
                Ok(self.value)
            } else {
                Err(nb::Error::WouldBlock)
            },
        }
    }
}

/// A transaction in progress.
#[derive(Debug)]
pub struct Transaction {
    plan: Vec<Op>,
    pc: usize,
    room: u32,
    value: Option<u32>,
    failure: Option<SpiError>,
}

impl View for Transaction {
    type V = TransactionView;

    closed spec fn view(&self) -> TransactionView {
        TransactionView {
            plan: self.plan@,
            pc: self.pc as nat,
            room: self.room as nat,
            value: self.value,
            failure: self.failure,
        }
    }
}

impl Transaction {
    /// A transaction about to take the first step of `plan`.
    pub fn new(plan: Vec<Op>) -> (transaction: Transaction)
        ensures
            transaction@ == TransactionView::start(plan@),
    {
        Transaction { plan, pc: 0, room: 0, value: None, failure: None }
    }

    /// A transaction that was refused before it asked for anything.
    pub fn refused(error: SpiError) -> (transaction: Transaction)
        ensures
            transaction@ == TransactionView::refused(error),
    {
        Transaction { plan: Vec::new(), pc: 0, room: 0, value: None, failure: Some(error) }
    }

    /// The command to perform next, or `None` when the transaction is finished.
    pub fn pending(&self) -> (command: Option<Command>)
        ensures
            command == self@.pending(),
    {
        if self.failure.is_some() || self.pc >= self.plan.len() {
            return None;
        }
        let command = match self.plan[self.pc] {
            Op::Issue(command) => command,
            Op::RequireClock(number) => Command::ReadClockEnable { number },
            Op::Push(word) => if self.room == 0 {
                Command::Read { register: Register::Txflr }
            } else {
                Command::Write { register: Register::Dr, value: word }
            },
            Op::AwaitIdle => Command::Read { register: Register::Sr },
            Op::AwaitReceive => Command::Read { register: Register::Rxflr },
            Op::Pop(_) => Command::Read { register: Register::Dr },
        };
        Some(command)
    }

    /// Take the platform's answer to the pending command and move on.
    pub fn advance(&mut self, reply: u32)
        ensures
            final(self)@ == old(self)@.advance(reply),
    {
        if self.failure.is_some() || self.pc >= self.plan.len() {
            return;
        }
        match self.plan[self.pc] {
            Op::Issue(_) => {
                self.pc = self.pc + 1;
            },
            Op::RequireClock(_) => {
                if reply == 0 {
                    self.failure = Some(SpiError::NoClockRateSpecified);
                } else {
                    self.pc = self.pc + 1;
                }
            },
            Op::Push(_) => {
                if self.room == 0 {
                    self.room = if reply >= FIFO_DEPTH {
                        0
                    } else {
                        FIFO_DEPTH - reply
                    };
                } else {
                    self.room = self.room - 1;
                    self.pc = self.pc + 1;
                }
            },
            Op::AwaitIdle => {
                if reply & 0x05 == 0x04 {
                    self.pc = self.pc + 1;
                }
            },
            Op::AwaitReceive => {
                if reply != 0 {
                    self.pc = self.pc + 1;
                }
            },
            Op::Pop(limit) => {
                self.value = Some(if reply > limit { limit } else { reply });
                self.pc = self.pc + 1;
            },
        }
    }

    /// Whether nothing is left to do.
    pub fn is_finished(&self) -> (finished: bool)
        ensures
            finished == self@.finished(),
    {
        self.failure.is_some() || self.pc >= self.plan.len()
    }

    /// How the transaction ended, or that it would block: it still has a
    /// command pending.
    pub fn result(&self) -> (result: Result<Option<u32>, nb::Error<SpiError>>)
        ensures
            result == self@.result(),
    {
        match self.failure {
            Some(error) => Err(nb::Error::Other(error)),
            None => if self.pc >= self.plan.len() {
                Ok(self.value)
            } else {
                Err(nb::Error::WouldBlock)
            },
        }
    }
}

} // verus!
