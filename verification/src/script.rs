//! What the driver does on the bus, as a value that contracts speak of.
//!
//! A [`Model`] is all there is to know of a driver: what it remembers, the
//! accesses it made and the pauses between them. A [`Run`] is a model in the
//! middle of a sequence of steps, each of which either goes on or, after the
//! first failure, does nothing. A sequence of steps is written as a chain:
//! `m.run().select(Bank::Bank0).put(Register::FifoRst, 0)` is the run that
//! selects a bank and writes a register, and fails where the first of the two
//! fails.
//!
//! The steps are opaque: a script is matched against a method step by step, without
//! looking into the steps. To compute a script on known answers, reveal them.

use vstd::prelude::*;

use crate::interface::{Access, Outcome, Pause, Wait, World};
use crate::registers::Register;
use crate::sensors::{
    AccelCalibration, AccelConfig, AccelDlpf, AccelFullScale, GyroCalibration, GyroConfig, GyroDlpf,
    GyroFullScale, MagCalibration, ONE_F32,
};
use crate::{Bank, Error};

verus! {

/// What the driver remembers between calls.
#[derive(Debug, Clone, Copy, PartialEq, Eq, Structural)]
pub struct State {
    /// The bank that was selected last, if any was.
    pub bank: Option<Bank>,
    /// The accelerometer settings in force.
    pub accel_config: AccelConfig,
    /// The gyroscope settings in force.
    pub gyro_config: GyroConfig,
    /// The accelerometer calibration.
    pub accel_calibration: AccelCalibration,
    /// The gyroscope calibration.
    pub gyro_calibration: GyroCalibration,
    /// The magnetometer calibration.
    pub mag_calibration: MagCalibration,
    /// Whether the magnetometer was set up.
    pub mag_initialized: bool,
}

impl State {
    /// What a driver remembers that has done nothing yet.
    pub open spec fn fresh() -> Self {
        State {
            bank: None,
            accel_config: AccelConfig {
                full_scale: AccelFullScale::G2,
                dlpf: AccelDlpf::Hz246,
                dlpf_enable: true,
                sample_rate_div: 0,
            },
            gyro_config: GyroConfig {
                full_scale: GyroFullScale::Dps250,
                dlpf: GyroDlpf::Hz197,
                dlpf_enable: true,
                sample_rate_div: 0,
            },
            accel_calibration: AccelCalibration::spec_offsets(0, 0, 0),
            gyro_calibration: GyroCalibration::spec_offsets(0, 0, 0),
            mag_calibration: MagCalibration {
                offset_x_bits: 0,
                offset_y_bits: 0,
                offset_z_bits: 0,
                scale_x_bits: ONE_F32,
                scale_y_bits: ONE_F32,
                scale_z_bits: ONE_F32,
            },
            mag_initialized: false,
        }
    }
}

impl Default for State {
    fn default() -> (state: Self)
        ensures
            state == Self::fresh(),
    {
        State {
            bank: None,
            accel_config: AccelConfig::default(),
            gyro_config: GyroConfig::default(),
            accel_calibration: AccelCalibration::default(),
            gyro_calibration: GyroCalibration::default(),
            mag_calibration: MagCalibration::default(),
            mag_initialized: false,
        }
    }
}

/// One thing that the driver did.
pub enum Event<E> {
    /// It accessed a register.
    Access {
        /// The register it meant.
        register: Register,
        /// What went over the bus.
        access: Access<E>,
    },
    /// It waited.
    Pause(Pause),
}

/// All there is to know of a driver.
pub struct Model<E> {
    /// What it remembers.
    pub state: State,
    /// The accesses made on its interface.
    pub bus: Seq<Access<E>>,
    /// The pauses that its interface was told of.
    pub noted: Seq<Wait>,
    /// What each access on the interface brings.
    pub world: World<E>,
    /// The bank that the chip had selected before the driver did anything, as far as
    /// that is known.
    pub start: Option<Bank>,
    /// All that it did, in order.
    pub trace: Seq<Event<E>>,
    /// The pauses in the trace that a delay provider made, in order: all but the
    /// spins.
    pub slept: Seq<Pause>,
}

/// The bank of the last selection in a trace that the bus confirmed, and `start`
/// where there was none.
pub open spec fn confirmed_bank<E>(start: Option<Bank>, trace: Seq<Event<E>>) -> Option<Bank>
    decreases trace.len(),
{
    if trace.len() == 0 {
        start
    } else {
        match trace.last() {
            Event::Access {
                register: Register::RegBankSel,
                access: Access::Write { address, size_bits, data, result: Ok(_) },
            } => selected_by(data),
            _ => confirmed_bank(start, trace.drop_last()),
        }
    }
}

/// The bank that a value written to `REG_BANK_SEL` selects, if it is one that
/// the driver writes.
pub open spec fn selected_by(data: Seq<u8>) -> Option<Bank> {
    if data == seq![Bank::Bank0.select_value()] {
        Some(Bank::Bank0)
    } else if data == seq![Bank::Bank1.select_value()] {
        Some(Bank::Bank1)
    } else if data == seq![Bank::Bank2.select_value()] {
        Some(Bank::Bank2)
    } else if data == seq![Bank::Bank3.select_value()] {
        Some(Bank::Bank3)
    } else {
        None
    }
}

/// Whether event `i` of a trace, if it accesses a register, finds the
/// register's own bank selected.
pub open spec fn in_own_bank<E>(start: Option<Bank>, trace: Seq<Event<E>>, i: int) -> bool {
    match trace[i] {
        Event::Access { register, access } => register == Register::RegBankSel || confirmed_bank(
            start,
            trace.take(i),
        ) == Some(register.bank()),
        _ => true,
    }
}

impl<E> Model<E> {
    /// The driver and the chip agree on the bank: the bank that is remembered
    /// is the one of the last selection that the bus confirmed, and every
    /// access found the bank of its register selected.
    pub open spec fn in_step(self) -> bool {
        &&& self.state.bank is Some ==> confirmed_bank(self.start, self.trace) == self.state.bank
        &&& forall|i: int|
            0 <= i < self.trace.len() ==> #[trigger] in_own_bank(self.start, self.trace, i)
    }

    /// A driver that has done nothing yet, on an interface with the given
    /// history.
    pub open spec fn fresh(bus: Seq<Access<E>>, noted: Seq<Wait>, world: World<E>) -> Self {
        Model {
            state: State::fresh(),
            bus,
            noted,
            world,
            start: None,
            trace: Seq::empty(),
            slept: Seq::empty(),
        }
    }

    /// What the next access brings.
    pub open spec fn outcome(self) -> Outcome<E> {
        self.world.at(self.bus.len())
    }

    /// The model after `event`. An access is one on the interface, and of a pause the
    /// interface is told.
    pub open spec fn after(self, event: Event<E>) -> Self {
        Model {
            noted: match event {
                Event::Pause(pause) => self.noted.push(Wait { position: self.bus.len(), pause }),
                _ => self.noted,
            },
            bus: match event {
                Event::Access { register, access } => self.bus.push(access),
                _ => self.bus,
            },
            trace: self.trace.push(event),
            slept: match event {
                Event::Pause(Pause::Spin(times)) => self.slept,
                Event::Pause(pause) => self.slept.push(pause),
                _ => self.slept,
            },
            ..self
        }
    }

    /// The run that has made no step yet.
    pub open spec fn run(self) -> Run<E> {
        Run { m: self, failed: None }
    }

    /// From here to `after` nothing that the driver remembers changed, but that
    /// `bank` is now selected.
    pub open spec fn moved_to(self, after: Model<E>, bank: Bank) -> bool {
        after.state == State { bank: Some(bank), ..self.state }
    }

    /// From here to `after` nothing that the driver remembers changed, but perhaps the
    /// bank.
    pub open spec fn kept(self, after: Model<E>) -> bool {
        after.state == State { bank: after.state.bank, ..self.state }
    }

    /// A call that did not wait led from here to `after`. As with every call, if
    /// driver and chip agreed on the bank before, they agree after.
    pub open spec fn in_order(self, after: Model<E>) -> bool {
        &&& self.in_step() ==> after.in_step()
        &&& self.slept == after.slept
    }

    /// A call that waited with a delay provider, and in no other way, led from
    /// here to `after`: the pauses that the driver made are those that the
    /// provider made. Here too, if driver and chip agreed on the bank before,
    /// they agree after.
    pub open spec fn paced(
        self,
        after: Model<E>,
        delay_before: Seq<Pause>,
        delay_after: Seq<Pause>,
    ) -> bool {
        &&& self.in_step() ==> after.in_step()
        &&& self.slept.is_prefix_of(after.slept)
        &&& delay_after == delay_before + after.slept.skip(self.slept.len() as int)
    }

    /// A call that did not wait, and that left alone what the driver remembers, led
    /// from here to `after`.
    pub open spec fn at_once(self, after: Model<E>) -> bool {
        self.in_order(after) && self.kept(after)
    }

    /// A call that waited with a delay provider, and that left alone what the driver
    /// remembers, led from here to `after`.
    pub open spec fn waited(
        self,
        after: Model<E>,
        delay_before: Seq<Pause>,
        delay_after: Seq<Pause>,
    ) -> bool {
        self.paced(after, delay_before, delay_after) && self.kept(after)
    }
}

/// A model in the middle of a sequence of steps.
pub struct Run<E> {
    /// The model after the steps so far.
    pub m: Model<E>,
    /// The error that ended the sequence, if one did.
    pub failed: Option<Error<E>>,
}

impl<E> Run<E> {
    /// The first `len` bytes that the next access brings.
    pub open spec fn next(self, len: nat) -> Seq<u8> {
        self.m.outcome().data(len)
    }

    /// The byte that a one-byte read brings next.
    pub open spec fn next_byte(self) -> u8 {
        self.next(1)[0]
    }

    /// What the driver remembers at this point.
    pub open spec fn state(self) -> State {
        self.m.state
    }

    /// Whether every step went well.
    pub open spec fn ok(self) -> bool {
        self.failed is None
    }

    /// The sequence ends here with `error`, unless it failed before.
    #[verifier::opaque]
    pub open spec fn fail(self, error: Error<E>) -> Self {
        if self.failed is Some {
            self
        } else {
            Run { failed: Some(error), ..self }
        }
    }

    /// The failure, if there was one, is passed over: the next step is made.
    pub open spec fn forgive(self) -> Self {
        Run { failed: None, ..self }
    }

    /// The driver now remembers `state`.
    #[verifier::opaque]
    pub open spec fn remember(self, state: State) -> Self {
        if self.failed is Some {
            self
        } else {
            Run { m: Model { state, ..self.m }, ..self }
        }
    }

    /// Reads `len` bytes from a register on.
    #[verifier::opaque]
    pub open spec fn read(self, register: Register, size_bits: u32, len: nat) -> Self {
        if self.failed is Some {
            self
        } else {
            let outcome = self.m.outcome();
            Run {
                m: self.m.after(
                    Event::Access {
                        register,
                        access: Access::Read {
                            address: register.address(),
                            size_bits,
                            data: outcome.data(len),
                            result: outcome.result,
                        },
                    },
                ),
                failed: match outcome.result {
                    Ok(_) => None,
                    Err(error) => Some(Error::Bus(error)),
                },
            }
        }
    }

    /// Reads a one-byte register.
    pub open spec fn get(self, register: Register) -> Self {
        self.read(register, 8, 1)
    }

    /// Writes a one-byte register.
    #[verifier::opaque]
    pub open spec fn put(self, register: Register, value: u8) -> Self {
        if self.failed is Some {
            self
        } else {
            let outcome = self.m.outcome();
            Run {
                m: self.m.after(
                    Event::Access {
                        register,
                        access: Access::Write {
                            address: register.address(),
                            size_bits: 8,
                            data: seq![value],
                            result: outcome.result,
                        },
                    },
                ),
                failed: match outcome.result {
                    Ok(_) => None,
                    Err(error) => Some(Error::Bus(error)),
                },
            }
        }
    }

    /// Reads a one-byte register and writes it back with the bits of `clear`
    /// cleared and then the bits of `set` set.
    pub open spec fn modify(self, register: Register, clear: u8, set: u8) -> Self {
        let value = self.next_byte();
        self.get(register).put(register, (value & !clear) | set)
    }

    /// Selects a bank, if it is not the selected one already. The driver
    /// remembers the bank once the bus has confirmed the write.
    #[verifier::opaque]
    pub open spec fn select(self, bank: Bank) -> Self {
        if self.failed is Some || self.m.state.bank == Some(bank) {
            self
        } else {
            let after = self.put(Register::RegBankSel, bank.select_value());
            after.remember(State { bank: Some(bank), ..after.m.state })
        }
    }

    /// Waits.
    #[verifier::opaque]
    pub open spec fn pause(self, pause: Pause) -> Self {
        if self.failed is Some {
            self
        } else {
            Run { m: self.m.after(Event::Pause(pause)), ..self }
        }
    }

    /// Waits so many milliseconds.
    pub open spec fn ms(self, ms: u32) -> Self {
        self.pause(Pause::Ms(ms))
    }

    /// Runs the spin hint so many times.
    pub open spec fn spin(self, times: u32) -> Self {
        self.pause(Pause::Spin(times))
    }

    /// A call that leaves the driver at `m` and returns `res` has made this
    /// run: it failed as the run failed, or returned `value`.
    pub open spec fn yields<T>(self, m: Model<E>, res: Result<T, Error<E>>, value: T) -> bool {
        &&& m == self.m
        &&& res == match self.failed {
            Some(error) => Err(error),
            None => Ok(value),
        }
    }

    /// [`Run::yields`] for a call that returns nothing of its own.
    pub open spec fn ends(self, m: Model<E>, res: Result<(), Error<E>>) -> bool {
        self.yields(m, res, ())
    }
}

/// Reads a one-byte register again and again into `buffer[from..to]`: the run,
/// and the buffer after it. A byte whose read failed is not stored.
pub open spec fn fill<E>(
    run: Run<E>,
    register: Register,
    buffer: Seq<u8>,
    from: int,
    to: int,
) -> (Run<E>, Seq<u8>)
    decreases to - from,
{
    if run.failed is Some || from >= to {
        (run, buffer)
    } else {
        let value = run.next_byte();
        let then = run.get(register);
        fill(
            then,
            register,
            if then.ok() {
                buffer.update(from, value)
            } else {
                buffer
            },
            from + 1,
            to,
        )
    }
}

/// [`Model::waited`], from the beginning of a call to a point in it.
#[verifier::opaque]
pub open spec fn since<E>(
    before: Model<E>,
    now: Model<E>,
    delay_before: Seq<Pause>,
    delay_now: Seq<Pause>,
) -> bool {
    before.waited(now, delay_before, delay_now)
}

/// At the beginning of a call nothing was waited.
pub proof fn lemma_since_start<E>(m: Model<E>, delay: Seq<Pause>)
    ensures
        since(m, m, delay, delay),
{
    reveal(since);
    assert(m.slept.skip(m.slept.len() as int) =~= Seq::empty());
    assert(delay + Seq::empty() =~= delay);
}

/// A step without a pause adds none.
pub broadcast proof fn lemma_since_at_once<E>(
    before: Model<E>,
    now: Model<E>,
    then: Model<E>,
    delay_before: Seq<Pause>,
    delay_now: Seq<Pause>,
)
    requires
        #[trigger] since(before, now, delay_before, delay_now),
        #[trigger] now.at_once(then),
    ensures
        since(before, then, delay_before, delay_now),
{
    reveal(since);
}

/// A step with pauses adds its own.
pub broadcast proof fn lemma_since_waited<E>(
    before: Model<E>,
    now: Model<E>,
    then: Model<E>,
    delay_before: Seq<Pause>,
    delay_now: Seq<Pause>,
    delay_then: Seq<Pause>,
)
    requires
        #[trigger] since(before, now, delay_before, delay_now),
        #[trigger] now.waited(then, delay_now, delay_then),
    ensures
        since(before, then, delay_before, delay_then),
{
    reveal(since);
    let a = before.slept.len() as int;
    let b = now.slept.len() as int;
    assert(then.slept.skip(a) =~= now.slept.skip(a) + then.slept.skip(b));
    assert(delay_then =~= delay_before + then.slept.skip(a));
}

/// What holds up to a point holds of a call that ends there.
pub broadcast proof fn lemma_since_end<E>(
    before: Model<E>,
    now: Model<E>,
    delay_before: Seq<Pause>,
    delay_now: Seq<Pause>,
)
    requires
        #[trigger] since(before, now, delay_before, delay_now),
    ensures
        before.waited(now, delay_before, delay_now),
{
    reveal(since);
}

/// After a failure a sequence stays where it is.
pub broadcast proof fn lemma_failed_read<E>(
    run: Run<E>,
    register: Register,
    size_bits: u32,
    len: nat,
)
    requires
        run.failed is Some,
    ensures
        #[trigger] run.read(register, size_bits, len) == run,
{
    reveal(Run::read);
}

/// After a failure a sequence stays where it is.
pub broadcast proof fn lemma_failed_put<E>(run: Run<E>, register: Register, value: u8)
    requires
        run.failed is Some,
    ensures
        #[trigger] run.put(register, value) == run,
{
    reveal(Run::put);
}

/// After a failure a sequence stays where it is.
pub broadcast proof fn lemma_failed_select<E>(run: Run<E>, bank: Bank)
    requires
        run.failed is Some,
    ensures
        #[trigger] run.select(bank) == run,
{
    reveal(Run::select);
}

/// After a failure a sequence stays where it is.
pub broadcast proof fn lemma_failed_pause<E>(run: Run<E>, pause: Pause)
    requires
        run.failed is Some,
    ensures
        #[trigger] run.pause(pause) == run,
{
    reveal(Run::pause);
}

/// After a failure a sequence stays where it is.
pub broadcast proof fn lemma_failed_fail<E>(run: Run<E>, error: Error<E>)
    requires
        run.failed is Some,
    ensures
        #[trigger] run.fail(error) == run,
{
    reveal(Run::fail);
}

/// After a failure a sequence stays where it is.
pub broadcast proof fn lemma_failed_remember<E>(run: Run<E>, state: State)
    requires
        run.failed is Some,
    ensures
        #[trigger] run.remember(state) == run,
{
    reveal(Run::remember);
}

pub broadcast group group_steps {
    lemma_since_at_once,
    lemma_since_waited,
    lemma_since_end,
    lemma_failed_read,
    lemma_failed_put,
    lemma_failed_select,
    lemma_failed_pause,
    lemma_failed_fail,
    lemma_failed_remember,
}

/// An event that selects no bank leaves driver and chip in agreement, if it
/// accesses no register outside the bank that the driver remembers.
pub proof fn lemma_in_step<E>(m: Model<E>, event: Event<E>)
    requires
        match event {
            Event::Access { register, access } => {
                &&& register != Register::RegBankSel
                &&& m.state.bank == Some(register.bank())
            },
            _ => true,
        },
    ensures
        m.in_step() ==> m.after(event).in_step(),
{
    let then = m.after(event);
    assert(then.trace.drop_last() =~= m.trace);
    if m.in_step() {
        assert forall|i: int| 0 <= i < then.trace.len() implies #[trigger] in_own_bank(
            then.start,
            then.trace,
            i,
        ) by {
            if i < m.trace.len() {
                assert(in_own_bank(m.start, m.trace, i));
                assert(then.trace.take(i) =~= m.trace.take(i));
            } else {
                assert(then.trace.take(i) =~= m.trace);
            }
        }
    }
}

/// A selection that the bus confirmed, and that the driver then remembers, leaves
/// driver and chip in agreement. So does one that failed.
pub proof fn lemma_select_in_step<E>(m: Model<E>, bank: Bank, access: Access<E>, state: State)
    requires
        access matches Access::Write { data, .. } && data == seq![bank.select_value()],
        access->Write_result is Ok ==> state.bank == Some(bank),
        access->Write_result is Err ==> state == m.state,
    ensures
        m.in_step() ==> (Model {
            state,
            ..m.after(Event::Access { register: Register::RegBankSel, access })
        }).in_step(),
{
    let event = Event::Access { register: Register::RegBankSel, access };
    let then = Model { state, ..m.after(event) };
    assert(then.trace.drop_last() =~= m.trace);
    assert(then.trace.last() == event);
    let data = access->Write_data;
    assert(data[0] == bank.select_value());
    assert(forall|b: Bank| data == seq![#[trigger] b.select_value()] ==> b == bank) by {
        assert forall|b: Bank| data == seq![#[trigger] b.select_value()] implies b == bank by {
            assert(seq![b.select_value()][0] == b.select_value());
        }
    }
    assert(selected_by(data) == Some(bank)) by {
        assert(Bank::Bank0.select_value() == 0);
        assert(Bank::Bank1.select_value() == 16);
        assert(Bank::Bank2.select_value() == 32);
        assert(Bank::Bank3.select_value() == 48);
    }
    if m.in_step() {
        assert forall|i: int| 0 <= i < then.trace.len() implies #[trigger] in_own_bank(
            then.start,
            then.trace,
            i,
        ) by {
            if i < m.trace.len() {
                assert(in_own_bank(m.start, m.trace, i));
                assert(then.trace.take(i) =~= m.trace.take(i));
            }
        }
    }
}

} // verus!
