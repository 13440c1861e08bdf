//! The driver itself: bank selection, register accesses, identification.

use vstd::prelude::*;

use crate::accelerometer;
use crate::gyroscope;
use crate::interface::{Delay, Interface, Pause};
use crate::registers::{
    Icm20948, Register, CLKSEL, DEVICE_RESET, DMP_EN, FIFO_EN, I2C_IF_DIS, SLEEP,
};
use crate::script;
use crate::script::{Event, Model, Run, State};
use crate::{Bank, Error, WHO_AM_I_VALUE};

verus! {

broadcast use crate::script::group_steps;

/// The processor's hint that the program spins, from `core::hint`. It returns
/// nothing, and nothing is claimed of it.
pub assume_specification[ core::hint::spin_loop ]();

/// Raw accelerometer reading.
#[derive(Debug, Clone, Copy, PartialEq, Eq, Structural)]
pub struct AccelData {
    /// X axis.
    pub x: i16,
    /// Y axis.
    pub y: i16,
    /// Z axis.
    pub z: i16,
}

/// Raw gyroscope reading.
#[derive(Debug, Clone, Copy, PartialEq, Eq, Structural)]
pub struct GyroData {
    /// X axis.
    pub x: i16,
    /// Y axis.
    pub y: i16,
    /// Z axis.
    pub z: i16,
}

/// Raw magnetometer reading.
#[derive(Debug, Clone, Copy, PartialEq, Eq, Structural)]
pub struct MagData {
    /// X axis.
    pub x: i16,
    /// Y axis.
    pub y: i16,
    /// Z axis.
    pub z: i16,
}

/// The 16-bit two's complement number with the given high and low byte.
pub open spec fn signed16(high: u8, low: u8) -> i16 {
    let raw = 256 * high + low;
    if raw < 0x8000 {
        raw as i16
    } else {
        (raw - 0x1_0000) as i16
    }
}

/// Puts a high and a low byte together.
pub fn join_signed16(high: u8, low: u8) -> (value: i16)
    ensures
        value == signed16(high, low),
{
    let raw: i32 = 256 * (high as i32) + (low as i32);
    if raw < 0x8000 {
        raw as i16
    } else {
        (raw - 0x1_0000) as i16
    }
}

/// The accelerometer reading in six bytes, the high byte of each axis first.
pub open spec fn accel_of(bytes: Seq<u8>) -> AccelData {
    AccelData {
        x: signed16(bytes[0], bytes[1]),
        y: signed16(bytes[2], bytes[3]),
        z: signed16(bytes[4], bytes[5]),
    }
}

/// The gyroscope reading in six bytes, the high byte of each axis first.
pub open spec fn gyro_of(bytes: Seq<u8>) -> GyroData {
    GyroData {
        x: signed16(bytes[0], bytes[1]),
        y: signed16(bytes[2], bytes[3]),
        z: signed16(bytes[4], bytes[5]),
    }
}

/// A byte with the bits of `mask`, or with none.
pub open spec fn spec_flag(mask: u8, on: bool) -> u8 {
    if on {
        mask
    } else {
        0
    }
}

/// A byte with the bits of `mask`, or with none.
#[verifier::when_used_as_spec(spec_flag)]
pub fn flag(mask: u8, on: bool) -> (byte: u8)
    ensures
        byte == spec_flag(mask, on),
{
    if on {
        mask
    } else {
        0
    }
}

/// Resets the chip, waits until it is up again, wakes it and lets it choose the best
/// clock.
pub open spec fn start<E>(run: Run<E>) -> Run<E> {
    run.select(Bank::Bank0).modify(Register::PwrMgmt1, DEVICE_RESET, DEVICE_RESET).ms(100).modify(
        Register::PwrMgmt1,
        SLEEP | CLKSEL,
        1,
    )
}

/// Turns the chip's own I2C slave interface off.
pub open spec fn leave_i2c<E>(run: Run<E>) -> Run<E> {
    run.select(Bank::Bank0).modify(Register::UserCtrl, I2C_IF_DIS, I2C_IF_DIS)
}

/// Reads `WHO_AM_I`: the run, and what the register holds.
pub open spec fn ask_identity<E>(run: Run<E>) -> (Run<E>, u8) {
    let r = run.select(Bank::Bank0);
    (r.get(Register::WhoAmI), r.next_byte())
}

/// Reads the temperature sensor: the run, and the reading.
pub open spec fn take_temperature<E>(run: Run<E>) -> (Run<E>, i16) {
    let r = run.select(Bank::Bank0);
    (r.read(Register::TempOutH, 16, 2), signed16(r.next(2)[0], r.next(2)[1]))
}

/// Puts the chip to sleep or wakes it.
pub open spec fn switch_sleep<E>(run: Run<E>, on: bool) -> Run<E> {
    run.select(Bank::Bank0).modify(Register::PwrMgmt1, SLEEP, flag(SLEEP, on))
}

/// Turns the motion processor on or off.
pub open spec fn switch_processor<E>(run: Run<E>, on: bool) -> Run<E> {
    run.select(Bank::Bank0).modify(Register::UserCtrl, DMP_EN, flag(DMP_EN, on))
}

/// Turns the FIFO on or off.
pub open spec fn switch_fifo<E>(run: Run<E>, on: bool) -> Run<E> {
    run.select(Bank::Bank0).modify(Register::UserCtrl, FIFO_EN, flag(FIFO_EN, on))
}

/// The driver of one chip.
pub struct Icm20948Driver<I: Interface> {
    device: Icm20948<I>,
    state: State,
    start: Ghost<Option<Bank>>,
    trace: Ghost<Seq<Event<I::Error>>>,
    slept: Ghost<Seq<Pause>>,
}

impl<I: Interface> View for Icm20948Driver<I> {
    type V = Model<I::Error>;

    closed spec fn view(&self) -> Model<I::Error> {
        Model {
            state: self.state,
            bus: self.device.interface.log(),
            noted: self.device.interface.waits(),
            world: self.device.interface.world(),
            start: self.start@,
            trace: self.trace@,
            slept: self.slept@,
        }
    }
}

impl<I: Interface> Icm20948Driver<I> {
    /// What the driver remembers.
    pub fn state(&self) -> (state: State)
        ensures
            state == self@.state,
    {
        self.state
    }

    /// Replaces what the driver remembers, but for the bank.
    pub(crate) fn remember(&mut self, state: State)
        requires
            state.bank == old(self)@.state.bank,
        ensures
            old(self)@.run().remember(state) == final(self)@.run(),
            final(self)@.state == state,
            old(self)@.in_order(final(self)@),
    {
        self.state = state;
        proof {
            reveal(Run::remember);
        }
    }

    /// Reads `data.len()` bytes from `register` on.
    pub(crate) fn read(&mut self, register: Register, size_bits: u32, data: &mut [u8]) -> (res:
        Result<(), Error<I::Error>>)
        requires
            register != Register::RegBankSel,
            old(self)@.state.bank == Some(register.bank()),
        ensures
            old(self)@.run().read(register, size_bits, old(data)@.len()).ends(final(self)@, res),
            final(data)@ == old(self)@.run().next(old(data)@.len()),
            final(self)@.state == old(self)@.state,
            old(self)@.at_once(final(self)@),
    {
        let ghost before = self@;
        let res = self.device.interface.read_register(register.address(), size_bits, data);
        proof {
            let event = Event::Access { register, access: self.device.interface.log().last() };
            self.trace@ = self.trace@.push(event);
            assert(self@ == before.after(event));
            script::lemma_in_step(before, event);
            reveal(Run::read);
        }
        match res {
            Ok(_) => Ok(()),
            Err(error) => Err(Error::from(error)),
        }
    }

    /// Reads a one-byte register.
    pub(crate) fn get(&mut self, register: Register) -> (res: Result<u8, Error<I::Error>>)
        requires
            register != Register::RegBankSel,
            old(self)@.state.bank == Some(register.bank()),
        ensures
            old(self)@.run().get(register).yields(
                final(self)@,
                res,
                old(self)@.run().next_byte(),
            ),
            final(self)@.state == old(self)@.state,
            old(self)@.at_once(final(self)@),
    {
        let mut data: [u8; 1] = [0u8];
        self.read(register, 8, &mut data)?;
        Ok(data[0])
    }

    /// Writes a one-byte register.
    pub(crate) fn put(&mut self, register: Register, value: u8) -> (res: Result<
        (),
        Error<I::Error>,
    >)
        requires
            register != Register::RegBankSel,
            old(self)@.state.bank == Some(register.bank()),
        ensures
            old(self)@.run().put(register, value).ends(final(self)@, res),
            final(self)@.state == old(self)@.state,
            old(self)@.at_once(final(self)@),
    {
        let ghost before = self@;
        let data: [u8; 1] = [value];
        let res = self.device.interface.write_register(register.address(), 8, &data);
        proof {
            let event = Event::Access { register, access: self.device.interface.log().last() };
            self.trace@ = self.trace@.push(event);
            assert(data@ =~= seq![value]);
            assert(self@ == before.after(event));
            script::lemma_in_step(before, event);
            reveal(Run::put);
        }
        match res {
            Ok(_) => Ok(()),
            Err(error) => Err(Error::from(error)),
        }
    }

    /// Reads a one-byte register and writes it back with the bits of `clear`
    /// cleared and the bits of `set` set.
    pub(crate) fn modify(&mut self, register: Register, clear: u8, set: u8) -> (res: Result<
        (),
        Error<I::Error>,
    >)
        requires
            register != Register::RegBankSel,
            old(self)@.state.bank == Some(register.bank()),
        ensures
            old(self)@.run().modify(register, clear, set).ends(final(self)@, res),
            final(self)@.state == old(self)@.state,
            old(self)@.at_once(final(self)@),
    {
        let value: u8 = self.get(register)?;
        self.put(register, (value & !clear) | set)
    }

    /// Reads a one-byte register `count` times into the beginning of `buffer`.
    pub(crate) fn fill(&mut self, register: Register, buffer: &mut [u8], count: usize) -> (res:
        Result<(), Error<I::Error>>)
        requires
            register != Register::RegBankSel,
            old(self)@.state.bank == Some(register.bank()),
            count <= old(buffer)@.len(),
        ensures
            script::fill(old(self)@.run(), register, old(buffer)@, 0, count as int).0.ends(
                final(self)@,
                res,
            ),
            final(buffer)@ == script::fill(
                old(self)@.run(),
                register,
                old(buffer)@,
                0,
                count as int,
            ).1,
            final(self)@.state == old(self)@.state,
            old(self)@.at_once(final(self)@),
    {
        let mut i: usize = 0;
        while i < count
            invariant
                register != Register::RegBankSel,
                self@.state.bank == Some(register.bank()),
                i <= count <= buffer@.len(),
                script::fill(old(self)@.run(), register, old(buffer)@, 0, count as int)
                    == script::fill(self@.run(), register, buffer@, i as int, count as int),
                self@.state == old(self)@.state,
                old(self)@.at_once(self@),
            decreases count - i,
        {
            proof {
                reveal_with_fuel(script::fill, 2);
            }
            let value: u8 = self.get(register)?;
            buffer[i] = value;
            i += 1;
        }
        Ok(())
    }

    /// Selects a register bank, unless it is selected already.
    pub fn select_bank(&mut self, bank: Bank) -> (res: Result<(), Error<I::Error>>)
        ensures
            old(self)@.run().select(bank).ends(final(self)@, res),
            res is Ok ==> old(self)@.moved_to(final(self)@, bank),
            res is Err ==> final(self)@.state == old(self)@.state,
            old(self)@.at_once(final(self)@),
    {
        proof {
            reveal(Run::select);
            reveal(Run::put);
            reveal(Run::remember);
        }
        if self.state.bank != Some(bank) {
            let ghost before = self@;
            let data: [u8; 1] = [bank.select_value()];
            let res = self.device.interface.write_register(
                Register::RegBankSel.address(),
                8,
                &data,
            );
            let ghost access = self.device.interface.log().last();
            proof {
                assert(data@ =~= seq![bank.select_value()]);
                self.trace@ = self.trace@.push(
                    Event::Access { register: Register::RegBankSel, access },
                );
            }
            match res {
                Ok(_) => {
                    self.state = State { bank: Some(bank), ..self.state };
                    proof {
                        script::lemma_select_in_step(before, bank, access, self.state);
                    }
                },
                Err(error) => {
                    proof {
                        script::lemma_select_in_step(before, bank, access, self.state);
                    }
                    return Err(Error::from(error));
                },
            }
        }
        Ok(())
    }

    /// Waits `ms` milliseconds.
    pub(crate) fn pause_ms<D: Delay>(&mut self, delay: &mut D, ms: u32)
        ensures
            old(self)@.run().ms(ms) == final(self)@.run(),
            final(self)@.state == old(self)@.state,
            old(self)@.waited(final(self)@, old(delay).log(), final(delay).log()),
    {
        let ghost before = self@;
        self.device.interface.note_pause(Pause::Ms(ms));
        delay.delay_ms(ms);
        proof {
            let event: Event<I::Error> = Event::Pause(Pause::Ms(ms));
            self.trace@ = self.trace@.push(event);
            self.slept@ = self.slept@.push(Pause::Ms(ms));
            assert(self@ == before.after(event));
            script::lemma_in_step(before, event);
            reveal(Run::pause);
            let added = self@.slept.skip(before.slept.len() as int);
            assert(delay.log() =~= old(delay).log() + added);
        }
    }

    /// Waits `us` microseconds.
    pub(crate) fn pause_us<D: Delay>(&mut self, delay: &mut D, us: u32)
        ensures
            old(self)@.run().pause(Pause::Us(us)) == final(self)@.run(),
            final(self)@.state == old(self)@.state,
            old(self)@.waited(final(self)@, old(delay).log(), final(delay).log()),
    {
        let ghost before = self@;
        self.device.interface.note_pause(Pause::Us(us));
        delay.delay_us(us);
        proof {
            let event: Event<I::Error> = Event::Pause(Pause::Us(us));
            self.trace@ = self.trace@.push(event);
            self.slept@ = self.slept@.push(Pause::Us(us));
            assert(self@ == before.after(event));
            script::lemma_in_step(before, event);
            reveal(Run::pause);
            let added = self@.slept.skip(before.slept.len() as int);
            assert(delay.log() =~= old(delay).log() + added);
        }
    }

    /// Runs the spin hint so many times.
    pub(crate) fn spin(&mut self, times: u32)
        ensures
            old(self)@.run().spin(times) == final(self)@.run(),
            final(self)@.state == old(self)@.state,
            old(self)@.at_once(final(self)@),
    {
        self.device.interface.note_pause(Pause::Spin(times));
        let ghost told = self@;
        let mut i: u32 = 0;
        while i < times
            invariant
                i <= times,
                self@ == told,
            decreases times - i,
        {
            core::hint::spin_loop();
            i += 1;
        }
        proof {
            let before = old(self)@;
            let event: Event<I::Error> = Event::Pause(Pause::Spin(times));
            self.trace@ = self.trace@.push(event);
            assert(self@ == before.after(event));
            script::lemma_in_step(before, event);
            reveal(Run::pause);
        }
    }

    /// The chip that the driver holds.
    pub closed spec fn chip(&self) -> Icm20948<I> {
        self.device
    }

    /// A driver for the chip on `interface`, once the chip has shown that it is
    /// the right one. The chip is not set up: that is what [`Self::init`] does.
    pub fn new(interface: I) -> (res: Result<Self, Error<I::Error>>)
        ensures
            ({
                let (read, id) = ask_identity(
                    Model::fresh(interface.log(), interface.waits(), interface.world()).run(),
                );
                match res {
                    Ok(driver) => read.ok() && id == WHO_AM_I_VALUE && driver@ == read.m,
                    Err(error) => if read.ok() {
                        id != WHO_AM_I_VALUE && error == Error::<I::Error>::InvalidDevice(id)
                    } else {
                        read.failed == Some(error)
                    },
                }
            }),
            res is Ok ==> res->Ok_0@.in_step(),
    {
        let mut driver = Icm20948Driver {
            device: Icm20948::new(interface),
            state: State::default(),
            start: Ghost(None),
            trace: Ghost(Seq::empty()),
            slept: Ghost(Seq::empty()),
        };
        let who_am_i: u8 = driver.read_who_am_i()?;
        if who_am_i != WHO_AM_I_VALUE {
            return Err(Error::InvalidDevice(who_am_i));
        }
        Ok(driver)
    }

    /// A driver that goes on from `state`, for the same chip on another
    /// interface. The chip has the bank selected that `state` holds.
    pub fn resume(interface: I, state: State) -> (driver: Self)
        ensures
            driver@ == (Model {
                state,
                start: state.bank,
                ..Model::fresh(interface.log(), interface.waits(), interface.world())
            }),
            driver@.in_step(),
            driver.chip().interface == interface,
    {
        Icm20948Driver {
            device: Icm20948::new(interface),
            state,
            start: Ghost(state.bank),
            trace: Ghost(Seq::empty()),
            slept: Ghost(Seq::empty()),
        }
    }

    /// Resets the chip, waits until it is up again, wakes it and lets it choose
    /// the best clock.
    pub fn init<D: Delay>(&mut self, delay: &mut D) -> (res: Result<(), Error<I::Error>>)
        ensures
            start(old(self)@.run()).ends(final(self)@, res),
            old(self)@.waited(final(self)@, old(delay).log(), final(delay).log()),
    {
        proof {
            script::lemma_since_start(self@, delay.log());
        }
        self.select_bank(Bank::Bank0)?;
        self.modify(Register::PwrMgmt1, DEVICE_RESET, DEVICE_RESET)?;
        self.pause_ms(delay, 100);
        self.modify(Register::PwrMgmt1, SLEEP | CLKSEL, 1)
    }

    /// Turns the chip's own I2C slave interface off, as SPI operation requires.
    pub fn enable_spi_mode(&mut self) -> (res: Result<(), Error<I::Error>>)
        ensures
            leave_i2c(old(self)@.run()).ends(final(self)@, res),
            old(self)@.at_once(final(self)@),
    {
        self.select_bank(Bank::Bank0)?;
        self.modify(Register::UserCtrl, I2C_IF_DIS, I2C_IF_DIS)
    }

    /// Reads `WHO_AM_I`.
    pub fn read_who_am_i(&mut self) -> (res: Result<u8, Error<I::Error>>)
        ensures
            ({
                let (run, value) = ask_identity(old(self)@.run());
                run.yields(final(self)@, res, value)
            }),
            old(self)@.at_once(final(self)@),
    {
        self.select_bank(Bank::Bank0)?;
        self.get(Register::WhoAmI)
    }

    /// Reads the accelerometer, all six bytes in one access.
    pub fn read_accel(&mut self) -> (res: Result<AccelData, Error<I::Error>>)
        ensures
            ({
                let (run, value) = accelerometer::take(old(self)@.run());
                run.yields(final(self)@, res, value)
            }),
            res is Ok ==> old(self)@.moved_to(final(self)@, Bank::Bank0),
            old(self)@.at_once(final(self)@),
    {
        let mut buffer: [u8; 6] = [0u8; 6];
        self.select_bank(Bank::Bank0)?;
        self.read(Register::AccelXoutH, 48, &mut buffer)?;
        Ok(
            AccelData {
                x: join_signed16(buffer[0], buffer[1]),
                y: join_signed16(buffer[2], buffer[3]),
                z: join_signed16(buffer[4], buffer[5]),
            },
        )
    }

    /// Reads the gyroscope, all six bytes in one access.
    pub fn read_gyro(&mut self) -> (res: Result<GyroData, Error<I::Error>>)
        ensures
            ({
                let (run, value) = gyroscope::take(old(self)@.run());
                run.yields(final(self)@, res, value)
            }),
            res is Ok ==> old(self)@.moved_to(final(self)@, Bank::Bank0),
            old(self)@.at_once(final(self)@),
    {
        let mut buffer: [u8; 6] = [0u8; 6];
        self.select_bank(Bank::Bank0)?;
        self.read(Register::GyroXoutH, 48, &mut buffer)?;
        Ok(
            GyroData {
                x: join_signed16(buffer[0], buffer[1]),
                y: join_signed16(buffer[2], buffer[3]),
                z: join_signed16(buffer[4], buffer[5]),
            },
        )
    }

    /// Reads the temperature sensor, both bytes in one access.
    pub fn read_temperature(&mut self) -> (res: Result<i16, Error<I::Error>>)
        ensures
            ({
                let (run, value) = take_temperature(old(self)@.run());
                run.yields(final(self)@, res, value)
            }),
            old(self)@.at_once(final(self)@),
    {
        let mut buffer: [u8; 2] = [0u8; 2];
        self.select_bank(Bank::Bank0)?;
        self.read(Register::TempOutH, 16, &mut buffer)?;
        Ok(join_signed16(buffer[0], buffer[1]))
    }

    /// Puts the chip to sleep or wakes it.
    pub fn set_sleep(&mut self, enable: bool) -> (res: Result<(), Error<I::Error>>)
        ensures
            switch_sleep(old(self)@.run(), enable).ends(final(self)@, res),
            old(self)@.at_once(final(self)@),
    {
        self.select_bank(Bank::Bank0)?;
        self.modify(Register::PwrMgmt1, SLEEP, flag(SLEEP, enable))
    }

    /// Turns the motion processor on or off.
    pub fn set_dmp_enable(&mut self, enable: bool) -> (res: Result<(), Error<I::Error>>)
        ensures
            switch_processor(old(self)@.run(), enable).ends(final(self)@, res),
            old(self)@.at_once(final(self)@),
    {
        self.select_bank(Bank::Bank0)?;
        self.modify(Register::UserCtrl, DMP_EN, flag(DMP_EN, enable))
    }

    /// Turns the FIFO on or off.
    pub fn set_fifo_enable(&mut self, enable: bool) -> (res: Result<(), Error<I::Error>>)
        ensures
            switch_fifo(old(self)@.run(), enable).ends(final(self)@, res),
            old(self)@.at_once(final(self)@),
    {
        self.select_bank(Bank::Bank0)?;
        self.modify(Register::UserCtrl, FIFO_EN, flag(FIFO_EN, enable))
    }

    /// Gives the interface back.
    pub fn release(self) -> (interface: I)
        ensures
            interface == self.chip().interface,
            interface.log() == self@.bus,
            interface.waits() == self@.noted,
            interface.world() == self@.world,
    {
        self.device.interface
    }

    /// The register device.
    pub fn device(&self) -> (device: &Icm20948<I>)
        ensures
            *device == self.chip(),
            device.interface.log() == self@.bus,
            device.interface.waits() == self@.noted,
            device.interface.world() == self@.world,
    {
        &self.device
    }

    /// The register device, for accesses of the caller's own.
    pub fn device_mut(&mut self) -> (device: &mut Icm20948<I>)
        ensures
            *device == old(self).chip(),
            device.interface.log() == old(self)@.bus,
            device.interface.waits() == old(self)@.noted,
            device.interface.world() == old(self)@.world,
            final(self).chip() == *final(device),
            final(self)@ == (Model {
                bus: final(device).interface.log(),
                noted: final(device).interface.waits(),
                world: final(device).interface.world(),
                ..old(self)@
            }),
    {
        &mut self.device
    }

    /// The bank that the driver remembers, for a caller that selected one by
    /// itself.
    pub fn current_bank_mut(&mut self) -> (bank: Option<&mut Bank>)
        ensures
            match bank {
                None => old(self)@.state.bank is None && final(self)@ == old(self)@,
                Some(current) => {
                    &&& old(self)@.state.bank == Some(*current)
                    &&& final(self)@ == (Model {
                        state: State { bank: Some(*final(current)), ..old(self)@.state },
                        ..old(self)@
                    })
                },
            },
            final(self).chip() == old(self).chip(),
    {
        self.state.bank.as_mut()
    }
}

} // verus!
