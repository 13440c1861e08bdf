//! What the non-blocking driver does differently.
//!
//! The non-blocking driver runs the methods of [`Icm20948Driver`] on a
//! [`crate::transcript::Transcript`]. For most of them that is all. It loads the
//! firmware with pauses, trusts in time instead of asking the I2C master, reads
//! the magnetometer from its first data register on, and sets up low power with
//! other values: those methods have a form of their own here.

use vstd::prelude::*;

use crate::device::{flag, Icm20948Driver, MagData};
use crate::dmp;
use crate::dmp::{DmpWrite, CHUNK, DATA_RDY_STATUS};
use crate::fifo;
use crate::fifo::{FifoConfig, FifoConfigAdvanced, FifoMode};
use crate::interface::{Delay, Interface, Pause};
use crate::interrupt;
use crate::magnetometer;
use crate::magnetometer::{
    check_self_test, MagConfig, MagMode, MagReading, AK09916_I2C_ADDRESS, AK09916_REG_CNTL2,
    AK09916_REG_CNTL3, AK09916_REG_HXL, AK09916_REG_WIA2, AK09916_WIA2_VALUE,
};
use crate::power;
use crate::power::{LowPowerConfig, WomMode};
use crate::registers::{
    Register, ACCEL_CYCLE, ACCEL_INTEL_EN, ACCEL_INTEL_MODE_INT, DISABLE_GYRO_X, DISABLE_GYRO_Y,
    DISABLE_GYRO_Z, I2C_MST_CLK, I2C_MST_CYCLE, I2C_MST_EN, I2C_SLV_EN, I2C_SLV_RNW, LP_EN, SLEEP,
    WOM_INT_EN,
};
use crate::script;
use crate::script::{Run, State};
use crate::{Bank, Error};

verus! {

broadcast use crate::script::group_steps;

/// Writes firmware in chunks, as [`dmp::write_chunks`], and waits 100 microseconds
/// whenever 256 bytes are full.
pub open spec fn write_firmware<E>(run: Run<E>, address: int, data: Seq<u8>) -> Run<E>
    decreases data.len(),
{
    if run.failed is Some || data.len() == 0 {
        run
    } else {
        let n = if data.len() < CHUNK {
            data.len() as int
        } else {
            CHUNK as int
        };
        let written = dmp::push_bytes(
            run.put(Register::MemBankSel, (address / 256) as u8).put(
                Register::MemStartAddr,
                (address % 256) as u8,
            ),
            data.take(n),
        );
        write_firmware(
            if (address + n) % 256 == 0 {
                written.pause(Pause::Us(100))
            } else {
                written
            },
            address + n,
            data.skip(n),
        )
    }
}

/// Loads the firmware.
pub open spec fn load_firmware<E>(run: Run<E>, firmware: Seq<u8>) -> Run<E> {
    dmp::finish_firmware(write_firmware(run.select(Bank::Bank0), 0, firmware))
}

/// Resets the processor, sets the sensors up for it and loads its firmware, with the
/// pauses that the chip needs.
pub open spec fn start<E>(run: Run<E>, firmware: Seq<u8>) -> Run<E> {
    load_firmware(dmp::prepare(dmp::reset(run).ms(1)), firmware).ms(2)
}

/// Writes to the processor's memory behind one address, whatever the length.
pub open spec fn write_memory<E>(run: Run<E>, address: u16, data: Seq<u8>) -> Run<E> {
    dmp::push_bytes(
        run.put(Register::MemBankSel, (address / 256) as u8).put(
            Register::MemStartAddr,
            (address % 256) as u8,
        ),
        data,
    )
}

/// Makes the writes of a sequence, from entry `from` on.
pub open spec fn write_all<E>(run: Run<E>, writes: Seq<DmpWrite>, from: int) -> Run<E>
    decreases writes.len() - from,
{
    if run.failed is Some || from >= writes.len() {
        run
    } else {
        write_all(
            write_memory(run, writes[from].address, writes[from].data@),
            writes,
            from + 1,
        )
    }
}

/// Writes a configuration to the processor's memory.
pub open spec fn configure<E>(run: Run<E>, writes: Seq<DmpWrite>) -> Run<E> {
    dmp::read_memory(
        write_memory(
            write_all(run.select(Bank::Bank0), writes, 0),
            DATA_RDY_STATUS,
            dmp::high_first(0x000B),
        ),
        DATA_RDY_STATUS,
        seq![0, 0],
    ).0
}

/// The code of a FIFO mode: its number.
pub open spec fn mode_number(mode: FifoMode) -> u8 {
    match mode {
        FifoMode::Stream => 0,
        FifoMode::Snapshot => 1,
    }
}

/// Writes the settings of the FIFO, with the number of their mode.
pub open spec fn apply<E>(run: Run<E>, config: FifoConfigAdvanced) -> Run<E> {
    fifo::configure(run, config, mode_number(config.mode))
}

/// Enters low power, with the accelerometer's low-pass filter at its widest and with
/// the other duty cycles off.
pub open spec fn enter_low_power<E>(run: Run<E>, config: LowPowerConfig) -> Run<E> {
    let selected = run.select(Bank::Bank2);
    let looking = if config.enable_wake_on_motion {
        selected.put(Register::AccelWomThr, config.wom_threshold).put(
            Register::AccelIntelCtrl,
            power::wom_bits(config.wom_mode),
        )
    } else {
        selected
    };
    let entered = looking.put(
        Register::AccelConfig,
        (2 * looking.state().accel_config.full_scale.code() + 1) as u8,
    ).put(Register::AccelSmplrtDiv1, 0).put(
        Register::AccelSmplrtDiv2,
        config.accel_rate.divider,
    ).select(Bank::Bank0).put(Register::PwrMgmt2, power::whole_gyroscope()).modify(
        Register::PwrMgmt1,
        LP_EN | SLEEP,
        LP_EN,
    ).put(Register::LpConfig, ACCEL_CYCLE).ms(1);
    if config.enable_wake_on_motion && entered.ok() {
        interrupt::status(entered).0.forgive().ms(10).modify(
            Register::IntEnable,
            WOM_INT_EN,
            WOM_INT_EN,
        )
    } else {
        entered
    }
}

/// Leaves low power.
pub open spec fn leave_low_power<E>(run: Run<E>) -> Run<E> {
    run.select(Bank::Bank0).modify(Register::PwrMgmt1, LP_EN | SLEEP, 0).put(Register::LpConfig, 0)
}

/// Writes a register of the magnetometer and gives the transfer ten milliseconds.
pub open spec fn write_mag<E>(run: Run<E>, reg: u8, value: u8) -> Run<E> {
    run.select(Bank::Bank3).put(Register::I2cSlv4Addr, AK09916_I2C_ADDRESS).put(
        Register::I2cSlv4Reg,
        reg,
    ).put(Register::I2cSlv4Do, value).put(Register::I2cSlv4Ctrl, I2C_SLV_EN).ms(10)
}

/// Reads a register of the magnetometer, and gives the transfer ten milliseconds:
/// the run, and what the register holds.
pub open spec fn read_mag<E>(run: Run<E>, reg: u8) -> (Run<E>, u8) {
    let r = run.select(Bank::Bank3).put(
        Register::I2cSlv4Addr,
        AK09916_I2C_ADDRESS | I2C_SLV_RNW,
    ).put(Register::I2cSlv4Reg, reg).put(Register::I2cSlv4Ctrl, I2C_SLV_EN).ms(10);
    (r.get(Register::I2cSlv4Di), r.next_byte())
}

/// Sets the magnetometer up.
pub open spec fn set_up<E>(run: Run<E>, mode: MagMode) -> Run<E> {
    let reset = write_mag(
        run.select(Bank::Bank0).modify(Register::UserCtrl, I2C_MST_EN, I2C_MST_EN).ms(10).select(
            Bank::Bank3,
        ).modify(Register::I2cMstCtrl, I2C_MST_CLK, 0x07).ms(10),
        AK09916_REG_CNTL3,
        0x01,
    ).ms(10);
    let (asked, answer) = read_mag(reset, AK09916_REG_WIA2);
    if answer != AK09916_WIA2_VALUE {
        asked.fail(Error::Magnetometer)
    } else {
        magnetometer::mark_initialized(
            write_mag(
                asked.put(Register::I2cSlv0Addr, AK09916_I2C_ADDRESS | I2C_SLV_RNW).put(
                    Register::I2cSlv0Reg,
                    AK09916_REG_HXL,
                ).put(Register::I2cSlv0Ctrl, I2C_SLV_EN | 8).ms(10),
                AK09916_REG_CNTL2,
                mode.code(),
            ).ms(10).select(Bank::Bank0),
        )
    }
}

/// Reads the magnetometer from the eight bytes that slave 0 read: the run, and the reading
/// with its calibration.
pub open spec fn read<E>(run: Run<E>) -> (Run<E>, MagReading) {
    let (measured, data) = magnetometer::measure(run, 8, 0);
    (measured, magnetometer::calibrated(data, run.state()))
}

/// Reads the magnetometer from the eight bytes that slave 0 read: the run, and the three
/// axes.
pub open spec fn read_raw<E>(run: Run<E>) -> (Run<E>, (i16, i16, i16)) {
    let (measured, data) = magnetometer::measure(run, 8, 0);
    (measured, (data.x, data.y, data.z))
}

/// Takes readings ten milliseconds apart, up to `count` with those in `data`: the
/// run, and all the readings.
pub open spec fn sample<E>(
    run: Run<E>,
    data: Seq<MagReading>,
    count: nat,
) -> (Run<E>, Seq<MagReading>)
    decreases count - data.len(),
{
    if run.failed is Some || data.len() >= count {
        (run, data)
    } else {
        let (measured, reading) = magnetometer::measure(run, 8, 0);
        sample(
            measured.ms(10),
            data.push(magnetometer::calibrated(reading, run.state())),
            count,
        )
    }
}

/// Runs the magnetometer's self-test: the run, and the self-test reading.
pub open spec fn self_test<E>(run: Run<E>) -> (Run<E>, MagData) {
    let (measured, data) = magnetometer::measure(
        write_mag(run, AK09916_REG_CNTL2, 0x10).ms(100).select(Bank::Bank3).put(
            Register::I2cSlv0Reg,
            AK09916_REG_HXL,
        ).ms(10),
        8,
        1,
    );
    (write_mag(measured, AK09916_REG_CNTL2, 0x08).ms(10), data)
}

/// Sets the magnetometer up for the motion processor. If it does not answer as
/// expected, the I2C master is turned off again and the call fails.
pub open spec fn set_up_for_dmp<E>(run: Run<E>) -> Run<E> {
    let (asked, answer) = read_mag(
        run.select(Bank::Bank0).modify(Register::UserCtrl, I2C_MST_EN, I2C_MST_EN).ms(10).select(
            Bank::Bank3,
        ).put(Register::I2cMstCtrl, 0x07),
        AK09916_REG_WIA2,
    );
    if answer != AK09916_WIA2_VALUE {
        asked.select(Bank::Bank0).modify(Register::UserCtrl, I2C_MST_EN, 0).fail(
            Error::Magnetometer,
        )
    } else {
        magnetometer::mark_initialized(
            magnetometer::set_slaves_for_dmp(
                write_mag(asked, AK09916_REG_CNTL3, 0x01).ms(100),
            ).select(Bank::Bank0).modify(Register::LpConfig, I2C_MST_CYCLE, I2C_MST_CYCLE).ms(50),
        )
    }
}

impl<I: Interface> Icm20948Driver<I> {
    /// Writes firmware in chunks, with a pause whenever 256 bytes are full.
    fn write_firmware<D: Delay>(&mut self, firmware: &[u8], delay: &mut D) -> (res: Result<
        (),
        Error<I::Error>,
    >)
        requires
            old(self)@.state.bank == Some(Bank::Bank0),
            firmware@.len() <= u16::MAX,
        ensures
            write_firmware(old(self)@.run(), 0, firmware@).ends(final(self)@, res),
            old(self)@.waited(final(self)@, old(delay).log(), final(delay).log()),
    {
        proof {
            script::lemma_since_start(self@, delay.log());
        }
        let mut written: usize = 0;
        assert(firmware@.skip(0) =~= firmware@);
        while written < firmware.len()
            invariant
                self@.state.bank == Some(Bank::Bank0),
                written <= firmware@.len() <= u16::MAX,
                write_firmware(old(self)@.run(), 0, firmware@) == write_firmware(
                    self@.run(),
                    written as int,
                    firmware@.skip(written as int),
                ),
                script::since(old(self)@, self@, old(delay).log(), delay.log()),
            decreases firmware@.len() - written,
        {
            let remaining: usize = firmware.len() - written;
            let size: usize = if remaining < CHUNK {
                remaining
            } else {
                CHUNK
            };
            proof {
                reveal_with_fuel(write_firmware, 2);
                let rest = firmware@.skip(written as int);
                assert(rest.take(size as int) =~= firmware@.subrange(
                    written as int,
                    written + size,
                ));
                assert(rest.skip(size as int) =~= firmware@.skip(written + size));
            }
            self.put(Register::MemBankSel, (written / 256) as u8)?;
            self.put(Register::MemStartAddr, (written % 256) as u8)?;
            self.push_bytes(firmware, written, written + size)?;
            written += size;
            if written % 256 == 0 {
                self.pause_us(delay, 100);
            }
        }
        Ok(())
    }

    /// [`Self::dmp_load_firmware`], with pauses.
    pub fn dmp_load_firmware_nonblocking<D: Delay>(
        &mut self,
        firmware: &[u8],
        delay: &mut D,
    ) -> (res: Result<(), Error<I::Error>>)
        requires
            firmware@.len() <= u16::MAX,
        ensures
            load_firmware(old(self)@.run(), firmware@).ends(final(self)@, res),
            old(self)@.waited(final(self)@, old(delay).log(), final(delay).log()),
    {
        proof {
            script::lemma_since_start(self@, delay.log());
        }
        self.select_bank(Bank::Bank0)?;
        self.write_firmware(firmware, delay)?;
        self.finish_firmware()
    }

    /// [`Self::dmp_init`], with the pauses that the chip needs.
    pub fn dmp_init_nonblocking<D: Delay>(
        &mut self,
        firmware: &[u8],
        delay: &mut D,
    ) -> (res: Result<(), Error<I::Error>>)
        requires
            firmware@.len() <= u16::MAX,
        ensures
            start(old(self)@.run(), firmware@).ends(final(self)@, res),
            old(self)@.waited(final(self)@, old(delay).log(), final(delay).log()),
    {
        proof {
            script::lemma_since_start(self@, delay.log());
        }
        self.dmp_reset()?;
        self.pause_ms(delay, 1);
        self.dmp_prepare()?;
        self.dmp_load_firmware_nonblocking(firmware, delay)?;
        self.pause_ms(delay, 2);
        Ok(())
    }

    /// Writes to the processor's memory behind one address.
    fn write_dmp_memory_nonblocking(&mut self, address: u16, data: &[u8]) -> (res: Result<
        (),
        Error<I::Error>,
    >)
        requires
            old(self)@.state.bank == Some(Bank::Bank0),
        ensures
            write_memory(old(self)@.run(), address, data@).ends(final(self)@, res),
            final(self)@.state == old(self)@.state,
            old(self)@.at_once(final(self)@),
    {
        self.put(Register::MemBankSel, (address / 256) as u8)?;
        self.put(Register::MemStartAddr, (address % 256) as u8)?;
        assert(data@.subrange(0, data@.len() as int) =~= data@);
        self.push_bytes(data, 0, data.len())
    }

    /// [`Self::dmp_configure`], with the I2C master left alone.
    pub fn dmp_configure_nonblocking(&mut self, init_sequence: &[DmpWrite]) -> (res: Result<
        (),
        Error<I::Error>,
    >)
        ensures
            configure(old(self)@.run(), init_sequence@).ends(final(self)@, res),
            old(self)@.at_once(final(self)@),
    {
        self.select_bank(Bank::Bank0)?;
        let ghost selected = self@.run();
        let mut i: usize = 0;
        while i < init_sequence.len()
            invariant
                i <= init_sequence@.len(),
                self@.state.bank == Some(Bank::Bank0),
                selected == old(self)@.run().select(Bank::Bank0),
                write_all(selected, init_sequence@, 0) == write_all(
                    self@.run(),
                    init_sequence@,
                    i as int,
                ),
                old(self)@.at_once(self@),
            decreases init_sequence@.len() - i,
        {
            proof {
                reveal_with_fuel(write_all, 2);
            }
            let write = &init_sequence[i];
            self.write_dmp_memory_nonblocking(write.address, write.data)?;
            i += 1;
        }
        self.write_dmp_memory_nonblocking(DATA_RDY_STATUS, &dmp::split_high_first(0x000B))?;
        let mut readback: [u8; 2] = [0u8; 2];
        assert(readback@ =~= seq![0u8, 0u8]);
        self.read_dmp_memory(DATA_RDY_STATUS, &mut readback)
    }

    /// [`Self::fifo_configure`], with the mode's number as its code.
    pub fn fifo_configure_nonblocking(&mut self, config: &FifoConfig) -> (res: Result<
        (),
        Error<I::Error>,
    >)
        ensures
            apply(old(self)@.run(), config.spec_advanced()).ends(final(self)@, res),
            old(self)@.at_once(final(self)@),
    {
        let advanced = FifoConfigAdvanced::from(*config);
        self.fifo_configure_advanced_nonblocking(&advanced)
    }

    /// [`Self::fifo_configure_advanced`], with the mode's number as its code.
    pub fn fifo_configure_advanced_nonblocking(&mut self, config: &FifoConfigAdvanced) -> (res:
        Result<(), Error<I::Error>>)
        ensures
            apply(old(self)@.run(), *config).ends(final(self)@, res),
            old(self)@.at_once(final(self)@),
    {
        let mode: u8 = match config.mode {
            FifoMode::Stream => 0,
            FifoMode::Snapshot => 1,
        };
        self.configure_fifo(config, mode)
    }

    /// [`Self::enter_low_power_mode`], with other settings of the accelerometer and a
    /// longer pause before motion is reported.
    pub fn enter_low_power_mode_nonblocking<D: Delay>(
        &mut self,
        config: &LowPowerConfig,
        delay: &mut D,
    ) -> (res: Result<(), Error<I::Error>>)
        ensures
            enter_low_power(old(self)@.run(), *config).ends(final(self)@, res),
            old(self)@.waited(final(self)@, old(delay).log(), final(delay).log()),
    {
        proof {
            script::lemma_since_start(self@, delay.log());
        }
        self.select_bank(Bank::Bank2)?;
        if config.enable_wake_on_motion {
            self.put(Register::AccelWomThr, config.wom_threshold_register_value())?;
            let previous = match config.wom_mode {
                WomMode::CompareInitial => false,
                WomMode::ComparePrevious => true,
            };
            self.put(
                Register::AccelIntelCtrl,
                ACCEL_INTEL_EN | flag(ACCEL_INTEL_MODE_INT, previous),
            )?;
        }
        let full_scale: u8 = self.state().accel_config.full_scale.code();
        self.put(Register::AccelConfig, 2 * full_scale + 1)?;
        self.put(Register::AccelSmplrtDiv1, 0)?;
        self.put(Register::AccelSmplrtDiv2, config.accel_rate.odr_value())?;
        self.select_bank(Bank::Bank0)?;
        self.put(Register::PwrMgmt2, DISABLE_GYRO_X | DISABLE_GYRO_Y | DISABLE_GYRO_Z)?;
        self.modify(Register::PwrMgmt1, LP_EN | SLEEP, LP_EN)?;
        self.put(Register::LpConfig, ACCEL_CYCLE)?;
        self.pause_ms(delay, 1);
        if config.enable_wake_on_motion {
            let _ = self.read_interrupt_status();
            self.pause_ms(delay, 10);
            self.modify(Register::IntEnable, WOM_INT_EN, WOM_INT_EN)?;
        }
        Ok(())
    }

    /// [`Self::exit_low_power_mode`], with the settings of the accelerometer left as
    /// they are.
    pub fn exit_low_power_mode_nonblocking(&mut self) -> (res: Result<(), Error<I::Error>>)
        ensures
            leave_low_power(old(self)@.run()).ends(final(self)@, res),
            old(self)@.at_once(final(self)@),
    {
        self.select_bank(Bank::Bank0)?;
        self.modify(Register::PwrMgmt1, LP_EN | SLEEP, 0)?;
        self.put(Register::LpConfig, 0)
    }

    /// Writes a register of the magnetometer and gives the transfer ten
    /// milliseconds.
    fn write_mag_register_nonblocking<D: Delay>(
        &mut self,
        reg: u8,
        value: u8,
        delay: &mut D,
    ) -> (res: Result<(), Error<I::Error>>)
        ensures
            write_mag(old(self)@.run(), reg, value).ends(final(self)@, res),
            res is Ok ==> old(self)@.moved_to(final(self)@, Bank::Bank3),
            old(self)@.waited(final(self)@, old(delay).log(), final(delay).log()),
    {
        proof {
            script::lemma_since_start(self@, delay.log());
        }
        self.select_bank(Bank::Bank3)?;
        self.put(Register::I2cSlv4Addr, AK09916_I2C_ADDRESS)?;
        self.put(Register::I2cSlv4Reg, reg)?;
        self.put(Register::I2cSlv4Do, value)?;
        self.put(Register::I2cSlv4Ctrl, I2C_SLV_EN)?;
        self.pause_ms(delay, 10);
        Ok(())
    }

    /// Reads a register of the magnetometer, and gives the transfer ten
    /// milliseconds.
    fn read_mag_register_nonblocking<D: Delay>(&mut self, reg: u8, delay: &mut D) -> (res: Result<
        u8,
        Error<I::Error>,
    >)
        ensures
            read_mag(old(self)@.run(), reg).0.yields(
                final(self)@,
                res,
                read_mag(old(self)@.run(), reg).1,
            ),
            res is Ok ==> old(self)@.moved_to(final(self)@, Bank::Bank3),
            old(self)@.waited(final(self)@, old(delay).log(), final(delay).log()),
    {
        proof {
            script::lemma_since_start(self@, delay.log());
        }
        self.select_bank(Bank::Bank3)?;
        self.put(Register::I2cSlv4Addr, AK09916_I2C_ADDRESS | I2C_SLV_RNW)?;
        self.put(Register::I2cSlv4Reg, reg)?;
        self.put(Register::I2cSlv4Ctrl, I2C_SLV_EN)?;
        self.pause_ms(delay, 10);
        self.get(Register::I2cSlv4Di)
    }

    /// [`Self::init_magnetometer`], with one attempt, and with slave 0 reading eight
    /// bytes from the first data register on.
    pub fn init_magnetometer_nonblocking<D: Delay>(
        &mut self,
        config: MagConfig,
        delay: &mut D,
    ) -> (res: Result<(), Error<I::Error>>)
        ensures
            set_up(old(self)@.run(), config.mode).ends(final(self)@, res),
            res is Ok ==> final(self)@.state == (State {
                bank: Some(Bank::Bank0),
                mag_initialized: true,
                ..old(self)@.state
            }),
            res is Err ==> old(self)@.kept(final(self)@),
            old(self)@.paced(final(self)@, old(delay).log(), final(delay).log()),
    {
        proof {
            script::lemma_since_start(self@, delay.log());
            reveal(Run::fail);
        }
        self.select_bank(Bank::Bank0)?;
        self.modify(Register::UserCtrl, I2C_MST_EN, I2C_MST_EN)?;
        self.pause_ms(delay, 10);
        self.select_bank(Bank::Bank3)?;
        self.modify(Register::I2cMstCtrl, I2C_MST_CLK, 0x07)?;
        self.pause_ms(delay, 10);
        self.write_mag_register_nonblocking(AK09916_REG_CNTL3, 0x01, delay)?;
        self.pause_ms(delay, 10);
        let who_am_i: u8 = self.read_mag_register_nonblocking(AK09916_REG_WIA2, delay)?;
        if who_am_i != AK09916_WIA2_VALUE {
            return Err(Error::Magnetometer);
        }
        self.put(Register::I2cSlv0Addr, AK09916_I2C_ADDRESS | I2C_SLV_RNW)?;
        self.put(Register::I2cSlv0Reg, AK09916_REG_HXL)?;
        self.put(Register::I2cSlv0Ctrl, I2C_SLV_EN | 8)?;
        self.pause_ms(delay, 10);
        self.write_mag_register_nonblocking(AK09916_REG_CNTL2, config.mode.code(), delay)?;
        self.pause_ms(delay, 10);
        self.select_bank(Bank::Bank0)?;
        self.mark_initialized();
        Ok(())
    }

    /// [`Self::read_magnetometer`], from the eight bytes that slave 0 read.
    pub fn read_magnetometer_nonblocking(&mut self) -> (res: Result<MagReading, Error<I::Error>>)
        ensures
            ({
                let (run, value) = read(old(self)@.run());
                run.yields(final(self)@, res, value)
            }),
            res is Ok ==> old(self)@.moved_to(final(self)@, Bank::Bank0),
            old(self)@.at_once(final(self)@),
    {
        let data = self.measure(8, 0)?;
        Ok(self.with_calibration(data))
    }

    /// [`Self::read_magnetometer_raw`], from the eight bytes that slave 0 read.
    pub fn read_magnetometer_raw_nonblocking(&mut self) -> (res: Result<
        (i16, i16, i16),
        Error<I::Error>,
    >)
        ensures
            ({
                let (run, value) = read_raw(old(self)@.run());
                run.yields(final(self)@, res, value)
            }),
            res is Ok ==> old(self)@.moved_to(final(self)@, Bank::Bank0),
            old(self)@.at_once(final(self)@),
    {
        let data = self.measure(8, 0)?;
        Ok((data.x, data.y, data.z))
    }

    /// [`Self::sample_magnetometer`], from the eight bytes that slave 0 read.
    pub fn sample_magnetometer_nonblocking<D: Delay>(
        &mut self,
        num_samples: usize,
        delay: &mut D,
    ) -> (res: Result<Vec<MagReading>, Error<I::Error>>)
        ensures
            ({
                let (run, data) = sample(old(self)@.run(), Seq::empty(), num_samples as nat);
                &&& final(self)@ == run.m
                &&& match res {
                    Ok(samples) => run.ok() && samples@ == data && data.len() == num_samples,
                    Err(error) => run.failed == Some(error),
                }
            }),
            old(self)@.waited(final(self)@, old(delay).log(), final(delay).log()),
    {
        proof {
            script::lemma_since_start(self@, delay.log());
        }
        let mut samples: Vec<MagReading> = Vec::new();
        while samples.len() < num_samples
            invariant
                samples@.len() <= num_samples,
                sample(old(self)@.run(), Seq::empty(), num_samples as nat) == sample(
                    self@.run(),
                    samples@,
                    num_samples as nat,
                ),
                script::since(old(self)@, self@, old(delay).log(), delay.log()),
            decreases num_samples - samples@.len(),
        {
            proof {
                reveal_with_fuel(sample, 2);
            }
            let data = self.read_magnetometer_nonblocking()?;
            samples.push(data);
            self.pause_ms(delay, 10);
        }
        Ok(samples)
    }

    /// [`Self::magnetometer_self_test`], with time given to each transfer.
    pub fn magnetometer_self_test_nonblocking<D: Delay>(&mut self, delay: &mut D) -> (res: Result<
        bool,
        Error<I::Error>,
    >)
        ensures
            ({
                let (run, data) = self_test(old(self)@.run());
                run.yields(final(self)@, res, magnetometer::good_self_test(data))
            }),
            old(self)@.waited(final(self)@, old(delay).log(), final(delay).log()),
    {
        proof {
            script::lemma_since_start(self@, delay.log());
        }
        self.write_mag_register_nonblocking(AK09916_REG_CNTL2, 0x10, delay)?;
        self.pause_ms(delay, 100);
        self.select_bank(Bank::Bank3)?;
        self.put(Register::I2cSlv0Reg, AK09916_REG_HXL)?;
        self.pause_ms(delay, 10);
        let (x, y, z) = self.read_magnetometer_raw()?;
        self.write_mag_register_nonblocking(AK09916_REG_CNTL2, 0x08, delay)?;
        self.pause_ms(delay, 10);
        Ok(check_self_test(x, y, z))
    }

    /// [`Self::dmp_init_magnetometer`], with time given to each transfer.
    pub fn dmp_init_magnetometer_nonblocking<D: Delay>(&mut self, delay: &mut D) -> (res: Result<
        (),
        Error<I::Error>,
    >)
        ensures
            set_up_for_dmp(old(self)@.run()).ends(final(self)@, res),
            res is Ok ==> final(self)@.state == (State {
                bank: Some(Bank::Bank0),
                mag_initialized: true,
                ..old(self)@.state
            }),
            res is Err ==> old(self)@.kept(final(self)@),
            old(self)@.paced(final(self)@, old(delay).log(), final(delay).log()),
    {
        broadcast use magnetometer::lemma_failed_set_slaves_for_dmp;

        proof {
            script::lemma_since_start(self@, delay.log());
            reveal(Run::fail);
        }
        self.select_bank(Bank::Bank0)?;
        self.modify(Register::UserCtrl, I2C_MST_EN, I2C_MST_EN)?;
        self.pause_ms(delay, 10);
        self.select_bank(Bank::Bank3)?;
        self.put(Register::I2cMstCtrl, 0x07)?;
        let who_am_i: u8 = self.read_mag_register_nonblocking(AK09916_REG_WIA2, delay)?;
        if who_am_i != AK09916_WIA2_VALUE {
            self.select_bank(Bank::Bank0)?;
            self.modify(Register::UserCtrl, I2C_MST_EN, 0)?;
            return Err(Error::Magnetometer);
        }
        self.write_mag_register_nonblocking(AK09916_REG_CNTL3, 0x01, delay)?;
        self.pause_ms(delay, 100);
        self.set_slaves_for_dmp()?;
        self.select_bank(Bank::Bank0)?;
        self.modify(Register::LpConfig, I2C_MST_CYCLE, I2C_MST_CYCLE)?;
        self.pause_ms(delay, 50);
        self.mark_initialized();
        Ok(())
    }
}

} // verus!
