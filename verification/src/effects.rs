//! What a run does to the chip, register by register.
//!
//! The laws on top of the scripts speak of what was written to a register, what was
//! read from it and which pauses were made, and not of the steps that a script is made
//! of.

use vstd::prelude::*;

use crate::interface::{Access, Pause};
use crate::registers::Register;
use crate::script::{Event, Run, State};
use crate::startup;
use crate::{Bank, Error};

verus! {

/// The values that were written to a register, in order. A write that failed does not
/// count.
pub open spec fn writes<E>(trace: Seq<Event<E>>, register: Register) -> Seq<u8>
    decreases trace.len(),
{
    if trace.len() == 0 {
        Seq::empty()
    } else {
        let before = writes(trace.drop_last(), register);
        match trace.last() {
            Event::Access {
                register: accessed,
                access: Access::Write { address, size_bits, data, result: Ok(_) },
            } => if accessed == register {
                before.push(data[0])
            } else {
                before
            },
            _ => before,
        }
    }
}

/// What the reads of a register brought, in order. A read that failed does not count.
pub open spec fn reads<E>(trace: Seq<Event<E>>, register: Register) -> Seq<Seq<u8>>
    decreases trace.len(),
{
    if trace.len() == 0 {
        Seq::empty()
    } else {
        let before = reads(trace.drop_last(), register);
        match trace.last() {
            Event::Access {
                register: accessed,
                access: Access::Read { address, size_bits, data, result: Ok(_) },
            } => if accessed == register {
                before.push(data)
            } else {
                before
            },
            _ => before,
        }
    }
}

/// The pauses that were made, in order, spins among them.
pub open spec fn pauses<E>(trace: Seq<Event<E>>) -> Seq<Pause>
    decreases trace.len(),
{
    if trace.len() == 0 {
        Seq::empty()
    } else {
        let before = pauses(trace.drop_last());
        match trace.last() {
            Event::Pause(pause) => before.push(pause),
            _ => before,
        }
    }
}

/// What had been written to `other` at each read of a register, in order.
pub open spec fn moments<E>(
    trace: Seq<Event<E>>,
    register: Register,
    other: Register,
) -> Seq<Seq<u8>>
    decreases trace.len(),
{
    if trace.len() == 0 {
        Seq::empty()
    } else {
        let before = moments(trace.drop_last(), register, other);
        match trace.last() {
            Event::Access {
                register: accessed,
                access: Access::Read { address, size_bits, data, result: Ok(_) },
            } => if accessed == register {
                before.push(writes(trace.drop_last(), other))
            } else {
                before
            },
            _ => before,
        }
    }
}

/// The pauses that had been made at each read of a register, in order.
pub open spec fn waits<E>(trace: Seq<Event<E>>, register: Register) -> Seq<Seq<Pause>>
    decreases trace.len(),
{
    if trace.len() == 0 {
        Seq::empty()
    } else {
        let before = waits(trace.drop_last(), register);
        match trace.last() {
            Event::Access {
                register: accessed,
                access: Access::Read { address, size_bits, data, result: Ok(_) },
            } => if accessed == register {
                before.push(pauses(trace.drop_last()))
            } else {
                before
            },
            _ => before,
        }
    }
}

/// Something that the chip notices.
pub enum Touch {
    /// A register is read.
    Read(Register),
    /// A register is written.
    Write(Register),
    /// The chip is given time.
    Pause(Pause),
}

/// How the chip was touched, in order. An access that failed does not count, and neither
/// does one that selects the bank.
pub open spec fn touches<E>(trace: Seq<Event<E>>) -> Seq<Touch>
    decreases trace.len(),
{
    if trace.len() == 0 {
        Seq::empty()
    } else {
        let before = touches(trace.drop_last());
        match trace.last() {
            Event::Access {
                register,
                access: Access::Read { address, size_bits, data, result: Ok(_) },
            } => before.push(Touch::Read(register)),
            Event::Access {
                register,
                access: Access::Write { address, size_bits, data, result: Ok(_) },
            } => if register == Register::RegBankSel {
                before
            } else {
                before.push(Touch::Write(register))
            },
            Event::Pause(pause) => before.push(Touch::Pause(pause)),
            _ => before,
        }
    }
}

/// From `before` to `after`, the chip was touched in this way.
pub open spec fn follows<E>(before: Run<E>, after: Run<E>, steps: Seq<Touch>) -> bool {
    touches(after.m.trace) == touches(before.m.trace) + steps
}

impl<E> Run<E> {
    /// The values that were written to a register so far.
    pub open spec fn wrote(self, register: Register) -> Seq<u8> {
        writes(self.m.trace, register)
    }

    /// What the reads of a register brought so far.
    pub open spec fn saw(self, register: Register) -> Seq<Seq<u8>> {
        reads(self.m.trace, register)
    }

    /// The byte that the last read of a register brought.
    pub open spec fn saw_last(self, register: Register) -> u8 {
        reads(self.m.trace, register).last()[0]
    }

    /// The pauses that were made so far.
    pub open spec fn paused(self) -> Seq<Pause> {
        pauses(self.m.trace)
    }

    /// The bus that the run is on works.
    pub open spec fn works(self) -> bool {
        startup::works(self.m.world)
    }
}

/// A register was read and written back once. The bits of `mask` are now `bits`, and
/// the others are as they were read.
pub open spec fn rewrote<E>(
    before: Run<E>,
    after: Run<E>,
    register: Register,
    mask: u8,
    bits: u8,
) -> bool {
    let value = after.wrote(register).last();
    &&& after.wrote(register) == before.wrote(register).push(value)
    &&& after.saw(register) == before.saw(register).push(after.saw(register).last())
    &&& value & mask == bits
    &&& value & !mask == after.saw_last(register) & !mask
}

/// A register was written once, with `value`.
pub open spec fn set_to<E>(before: Run<E>, after: Run<E>, register: Register, value: u8) -> bool {
    after.wrote(register) == before.wrote(register).push(value)
}

/// No register was written but those in `touched`, and the one that selects the bank.
pub open spec fn only<E>(before: Run<E>, after: Run<E>, touched: Set<Register>) -> bool {
    forall|other: Register|
        other != Register::RegBankSel && !touched.contains(other) ==> #[trigger] writes(
            after.m.trace,
            other,
        ) == writes(before.m.trace, other)
}

/// On a bus that works, the steps from `before` to `after` go well.
pub open spec fn goes_through<E>(before: Run<E>, after: Run<E>) -> bool {
    before.ok() && before.works() ==> after.ok()
}

/// Reading a register and writing it back changes the bits that are named.
pub(crate) proof fn lemma_rewrote<E>(run: Run<E>, register: Register, clear: u8, set: u8)
    requires
        register != Register::RegBankSel,
        run.modify(register, clear, set).ok(),
        set & clear == set,
    ensures
        rewrote(run, run.modify(register, clear, set), register, clear, set),
{
    broadcast use group_effects;

    let was = run.next_byte();
    assert(((was & !clear) | set) & clear == set) by (bit_vector)
        requires
            set & clear == set,
    ;
    assert(((was & !clear) | set) & !clear == was & !clear) by (bit_vector)
        requires
            set & clear == set,
    ;
}

/// A step fails only where the bus does, and with the error that the bus gave. An access is
/// made with the address of its register, once.
pub proof fn failures_are_those_of_the_bus<E>(
    run: Run<E>,
    register: Register,
    value: u8,
    size_bits: u32,
    len: nat,
)
    requires
        run.ok(),
    ensures
        ({
            let then = run.put(register, value);
            let result = run.m.world.at(run.m.bus.len()).result;
            &&& then.ok() <==> result is Ok
            &&& result matches Err(error) ==> then.failed == Some(Error::<E>::Bus(error))
            &&& then.m.bus.len() == run.m.bus.len() + 1
            &&& then.m.bus.last() matches Access::Write { address, data, .. } && address
                == register.address() && data.len() == 1 && data[0] == value
        }),
        ({
            let then = run.read(register, size_bits, len);
            let result = run.m.world.at(run.m.bus.len()).result;
            &&& then.ok() <==> result is Ok
            &&& result matches Err(error) ==> then.failed == Some(Error::<E>::Bus(error))
            &&& then.m.bus.len() == run.m.bus.len() + 1
            &&& then.m.bus.last() matches Access::Read { address, data, .. } && address
                == register.address() && data.len() == len
        }),
{
    reveal(Run::put);
    reveal(Run::read);
}

/// A bank is selected with one write of sixteen times its number, unless it is the one that
/// the driver remembers; then there is no access.
pub proof fn selecting_writes_the_bank<E>(run: Run<E>, bank: Bank)
    requires
        run.ok(),
    ensures
        ({
            let then = run.select(bank);
            let number = match bank {
                Bank::Bank0 => 0int,
                Bank::Bank1 => 1,
                Bank::Bank2 => 2,
                Bank::Bank3 => 3,
            };
            &&& run.state().bank == Some(bank) ==> then == run
            &&& run.state().bank != Some(bank) && then.ok() ==> {
                &&& then.wrote(Register::RegBankSel).len() == run.wrote(Register::RegBankSel).len()
                    + 1
                &&& then.wrote(Register::RegBankSel).last() == 16 * number
            }
            &&& then.ok() ==> then.state().bank == Some(bank)
            &&& !then.ok() ==> then.state() == run.state()
        }),
{
    reveal(Run::select);
    reveal(Run::put);
    reveal(Run::remember);
    lemma_writes_put(run, Register::RegBankSel, bank.select_value(), Register::RegBankSel);
}

pub(crate) broadcast proof fn lemma_writes_read<E>(run: Run<E>, register: Register, size_bits: u32, len: nat, other: Register)
    ensures
        #[trigger] writes(run.read(register, size_bits, len).m.trace, other) == writes(run.m.trace, other),
{
    reveal(Run::read);
    if run.ok() {
        assert(run.read(register, size_bits, len).m.trace.drop_last() =~= run.m.trace);
    }
}

pub(crate) broadcast proof fn lemma_reads_read<E>(run: Run<E>, register: Register, size_bits: u32, len: nat, other: Register)
    ensures
        #[trigger] reads(run.read(register, size_bits, len).m.trace, other) == if run.read(register, size_bits, len).ok() && other == register {
            reads(run.m.trace, other).push(run.next(len))
        } else {
            reads(run.m.trace, other)
        },
{
    reveal(Run::read);
    if run.ok() {
        assert(run.read(register, size_bits, len).m.trace.drop_last() =~= run.m.trace);
    }
}

pub(crate) broadcast proof fn lemma_pauses_read<E>(run: Run<E>, register: Register, size_bits: u32, len: nat)
    ensures
        #[trigger] pauses(run.read(register, size_bits, len).m.trace) == pauses(run.m.trace),
{
    reveal(Run::read);
    if run.ok() {
        assert(run.read(register, size_bits, len).m.trace.drop_last() =~= run.m.trace);
    }
}

pub(crate) broadcast proof fn lemma_writes_put<E>(run: Run<E>, register: Register, value: u8, other: Register)
    ensures
        #[trigger] writes(run.put(register, value).m.trace, other) == if run.put(register, value).ok() && other == register {
            writes(run.m.trace, other).push(value)
        } else {
            writes(run.m.trace, other)
        },
{
    reveal(Run::put);
    if run.ok() {
        assert(run.put(register, value).m.trace.drop_last() =~= run.m.trace);
        assert(seq![value][0] == value);
    }
}

pub(crate) broadcast proof fn lemma_reads_put<E>(run: Run<E>, register: Register, value: u8, other: Register)
    ensures
        #[trigger] reads(run.put(register, value).m.trace, other) == reads(run.m.trace, other),
{
    reveal(Run::put);
    if run.ok() {
        assert(run.put(register, value).m.trace.drop_last() =~= run.m.trace);
        assert(seq![value][0] == value);
    }
}

pub(crate) broadcast proof fn lemma_pauses_put<E>(run: Run<E>, register: Register, value: u8)
    ensures
        #[trigger] pauses(run.put(register, value).m.trace) == pauses(run.m.trace),
{
    reveal(Run::put);
    if run.ok() {
        assert(run.put(register, value).m.trace.drop_last() =~= run.m.trace);
        assert(seq![value][0] == value);
    }
}

pub(crate) broadcast proof fn lemma_writes_pause<E>(run: Run<E>, pause: Pause, other: Register)
    ensures
        #[trigger] writes(run.pause(pause).m.trace, other) == writes(run.m.trace, other),
{
    reveal(Run::pause);
    if run.ok() {
        assert(run.pause(pause).m.trace.drop_last() =~= run.m.trace);
    }
}

pub(crate) broadcast proof fn lemma_reads_pause<E>(run: Run<E>, pause: Pause, other: Register)
    ensures
        #[trigger] reads(run.pause(pause).m.trace, other) == reads(run.m.trace, other),
{
    reveal(Run::pause);
    if run.ok() {
        assert(run.pause(pause).m.trace.drop_last() =~= run.m.trace);
    }
}

pub(crate) broadcast proof fn lemma_pauses_pause<E>(run: Run<E>, pause: Pause)
    ensures
        #[trigger] pauses(run.pause(pause).m.trace) == if run.ok() {
            pauses(run.m.trace).push(pause)
        } else {
            pauses(run.m.trace)
        },
{
    reveal(Run::pause);
    if run.ok() {
        assert(run.pause(pause).m.trace.drop_last() =~= run.m.trace);
    }
}

pub(crate) broadcast proof fn lemma_writes_select<E>(run: Run<E>, bank: Bank, other: Register)
    requires
        other != Register::RegBankSel,
    ensures
        #[trigger] writes(run.select(bank).m.trace, other) == writes(run.m.trace, other),
{
    reveal(Run::select);
    reveal(Run::remember);
    lemma_writes_put(run, Register::RegBankSel, bank.select_value(), other);
}

pub(crate) broadcast proof fn lemma_reads_select<E>(run: Run<E>, bank: Bank, other: Register)
    ensures
        #[trigger] reads(run.select(bank).m.trace, other) == reads(run.m.trace, other),
{
    reveal(Run::select);
    reveal(Run::remember);
    lemma_reads_put(run, Register::RegBankSel, bank.select_value(), other);
}

pub(crate) broadcast proof fn lemma_pauses_select<E>(run: Run<E>, bank: Bank)
    ensures
        #[trigger] pauses(run.select(bank).m.trace) == pauses(run.m.trace),
{
    reveal(Run::select);
    reveal(Run::remember);
    lemma_pauses_put(run, Register::RegBankSel, bank.select_value());
}

pub(crate) broadcast proof fn lemma_moments_read<E>(
    run: Run<E>,
    register: Register,
    size_bits: u32,
    len: nat,
    at: Register,
    other: Register,
)
    ensures
        #[trigger] moments(run.read(register, size_bits, len).m.trace, at, other) == if run.read(register, size_bits, len).ok() && at == register {
            moments(run.m.trace, at, other).push(writes(run.m.trace, other))
        } else {
            moments(run.m.trace, at, other)
        },
{
    reveal(Run::read);
    if run.ok() {
        assert(run.read(register, size_bits, len).m.trace.drop_last() =~= run.m.trace);
    }
}

pub(crate) broadcast proof fn lemma_waits_read<E>(
    run: Run<E>,
    register: Register,
    size_bits: u32,
    len: nat,
    at: Register,
)
    ensures
        #[trigger] waits(run.read(register, size_bits, len).m.trace, at) == if run.read(register, size_bits, len).ok() && at == register {
            waits(run.m.trace, at).push(pauses(run.m.trace))
        } else {
            waits(run.m.trace, at)
        },
{
    reveal(Run::read);
    if run.ok() {
        assert(run.read(register, size_bits, len).m.trace.drop_last() =~= run.m.trace);
    }
}

pub(crate) broadcast proof fn lemma_moments_put<E>(
    run: Run<E>,
    register: Register,
    value: u8,
    at: Register,
    other: Register,
)
    ensures
        #[trigger] moments(run.put(register, value).m.trace, at, other) == moments(run.m.trace, at, other),
{
    reveal(Run::put);
    if run.ok() {
        assert(run.put(register, value).m.trace.drop_last() =~= run.m.trace);
    }
}

pub(crate) broadcast proof fn lemma_waits_put<E>(
    run: Run<E>,
    register: Register,
    value: u8,
    at: Register,
)
    ensures
        #[trigger] waits(run.put(register, value).m.trace, at) == waits(run.m.trace, at),
{
    reveal(Run::put);
    if run.ok() {
        assert(run.put(register, value).m.trace.drop_last() =~= run.m.trace);
    }
}

pub(crate) broadcast proof fn lemma_moments_pause<E>(
    run: Run<E>,
    pause: Pause,
    at: Register,
    other: Register,
)
    ensures
        #[trigger] moments(run.pause(pause).m.trace, at, other) == moments(run.m.trace, at, other),
{
    reveal(Run::pause);
    if run.ok() {
        assert(run.pause(pause).m.trace.drop_last() =~= run.m.trace);
    }
}

pub(crate) broadcast proof fn lemma_waits_pause<E>(
    run: Run<E>,
    pause: Pause,
    at: Register,
)
    ensures
        #[trigger] waits(run.pause(pause).m.trace, at) == waits(run.m.trace, at),
{
    reveal(Run::pause);
    if run.ok() {
        assert(run.pause(pause).m.trace.drop_last() =~= run.m.trace);
    }
}

pub(crate) broadcast proof fn lemma_moments_select<E>(run: Run<E>, bank: Bank, at: Register, other: Register)
    ensures
        #[trigger] moments(run.select(bank).m.trace, at, other) == moments(run.m.trace, at, other),
{
    reveal(Run::select);
    reveal(Run::remember);
    lemma_moments_put(run, Register::RegBankSel, bank.select_value(), at, other);
}

pub(crate) broadcast proof fn lemma_waits_select<E>(run: Run<E>, bank: Bank, at: Register)
    ensures
        #[trigger] waits(run.select(bank).m.trace, at) == waits(run.m.trace, at),
{
    reveal(Run::select);
    reveal(Run::remember);
    lemma_waits_put(run, Register::RegBankSel, bank.select_value(), at);
}

pub(crate) broadcast proof fn lemma_touches_read<E>(
    run: Run<E>,
    register: Register,
    size_bits: u32,
    len: nat,
)
    ensures
        #[trigger] touches(run.read(register, size_bits, len).m.trace) == if run.read(
            register,
            size_bits,
            len,
        ).ok() {
            touches(run.m.trace).push(Touch::Read(register))
        } else {
            touches(run.m.trace)
        },
{
    reveal(Run::read);
    if run.ok() {
        assert(run.read(register, size_bits, len).m.trace.drop_last() =~= run.m.trace);
    }
}

pub(crate) broadcast proof fn lemma_touches_put<E>(run: Run<E>, register: Register, value: u8)
    ensures
        #[trigger] touches(run.put(register, value).m.trace) == if run.put(register, value).ok()
            && register != Register::RegBankSel {
            touches(run.m.trace).push(Touch::Write(register))
        } else {
            touches(run.m.trace)
        },
{
    reveal(Run::put);
    if run.ok() {
        assert(run.put(register, value).m.trace.drop_last() =~= run.m.trace);
    }
}

pub(crate) broadcast proof fn lemma_touches_pause<E>(run: Run<E>, pause: Pause)
    ensures
        #[trigger] touches(run.pause(pause).m.trace) == if run.ok() {
            touches(run.m.trace).push(Touch::Pause(pause))
        } else {
            touches(run.m.trace)
        },
{
    reveal(Run::pause);
    if run.ok() {
        assert(run.pause(pause).m.trace.drop_last() =~= run.m.trace);
    }
}

pub(crate) broadcast proof fn lemma_touches_select<E>(run: Run<E>, bank: Bank)
    ensures
        #[trigger] touches(run.select(bank).m.trace) == touches(run.m.trace),
{
    reveal(Run::select);
    reveal(Run::remember);
    lemma_touches_put(run, Register::RegBankSel, bank.select_value());
}

pub(crate) broadcast proof fn lemma_bank_select<E>(run: Run<E>, bank: Bank)
    ensures
        #[trigger] run.select(bank).ok() ==> run.select(bank).m.state.bank == Some(bank),
{
    reveal(Run::select);
    reveal(Run::remember);
}

pub(crate) broadcast proof fn lemma_remember<E>(run: Run<E>, state: State)
    ensures
        ({
            let then = #[trigger] run.remember(state);
            &&& then.m.trace == run.m.trace
            &&& then.m.world == run.m.world
            &&& then.ok() == run.ok()
            &&& then.m.state == if run.ok() {
                state
            } else {
                run.m.state
            }
        }),
{
    reveal(Run::remember);
}

pub(crate) broadcast proof fn lemma_fail<E>(run: Run<E>, error: Error<E>)
    ensures
        ({
            let then = #[trigger] run.fail(error);
            &&& then.m == run.m
            &&& then.failed == if run.ok() {
                Some(error)
            } else {
                run.failed
            }
        }),
{
    reveal(Run::fail);
}

pub(crate) broadcast group group_effects {
    lemma_writes_read,
    lemma_writes_put,
    lemma_writes_pause,
    lemma_writes_select,
    lemma_reads_read,
    lemma_reads_put,
    lemma_reads_pause,
    lemma_reads_select,
    lemma_pauses_read,
    lemma_pauses_put,
    lemma_pauses_pause,
    lemma_pauses_select,
    lemma_moments_read,
    lemma_moments_put,
    lemma_moments_pause,
    lemma_moments_select,
    lemma_waits_read,
    lemma_waits_put,
    lemma_waits_pause,
    lemma_waits_select,
    lemma_remember,
    lemma_fail,
    crate::startup::group_goes_on,
    crate::script::group_steps,
}

pub(crate) broadcast group group_order {
    lemma_touches_read,
    lemma_touches_put,
    lemma_touches_pause,
    lemma_touches_select,
    lemma_bank_select,
    lemma_remember,
    lemma_fail,
    crate::startup::group_goes_on,
    crate::script::group_steps,
}

} // verus!
