//! Laws on what the chip is set to: which bits of which register an operation changes,
//! and that it changes nothing else.

use vstd::prelude::*;

use crate::accelerometer;
use crate::device;
use crate::dmp;
use crate::effects;
use crate::fifo;
use crate::fifo::{FifoConfig, FifoConfigAdvanced};
use crate::gyroscope;
use crate::interface::Pause;
use crate::interrupt;
use crate::interrupt::{InterruptConfig, InterruptPinConfig};
use crate::nonblocking;
use crate::power;
use crate::power::{ClockSource, CycleConfig, LowPowerConfig, PowerMode, SensorPowerConfig};
use crate::registers::{
    Register, ACCEL_CYCLE, ACCEL_DLPFCFG, ACCEL_FCHOICE, ACCEL_FIFO_EN, ACCEL_FS_SEL,
    ACCEL_INTEL_EN, ACCEL_INTEL_MODE_INT, CLKSEL, DEVICE_RESET, DISABLE_GYRO_X, DISABLE_GYRO_Y,
    DISABLE_GYRO_Z, DMP_EN, DMP_INT1_EN, DMP_RST, FIFO_EN, GYRO_CYCLE, GYRO_DLPFCFG,
    GYRO_FCHOICE, GYRO_FS_SEL, GYRO_X_FIFO_EN, GYRO_Y_FIFO_EN, GYRO_Z_FIFO_EN, I2C_IF_DIS,
    I2C_MST_CYCLE, I2C_MST_INT_EN, INT1_ACTL, INT1_LATCH_INT_EN, INT1_OPEN, INT_ANYRD_2CLEAR,
    LP_EN, PLL_RDY_EN, SLEEP, SLV_0_FIFO_EN, SLV_1_FIFO_EN, SLV_2_FIFO_EN, SLV_3_FIFO_EN,
    SRAM_RST, TEMP_DIS, TEMP_FIFO_EN, WOM_INT_EN,
};
use crate::script::{Event, Model, Run, State};
use crate::sensors::{AccelConfig, GyroConfig};
use crate::Bank;

verus! {

broadcast use crate::effects::group_effects;

/// An operation went from `before` to `after` at once: it reads one register and writes
/// it back, with the bits of `mask` set to `bits`, and does nothing else. It fails only
/// where the bus does.
pub open spec fn changes_bits<E>(
    before: Run<E>,
    after: Run<E>,
    register: Register,
    mask: u8,
    bits: u8,
) -> bool {
    &&& effects::goes_through(before, after)
    &&& after.ok() ==> {
        &&& effects::rewrote(before, after, register, mask, bits)
        &&& effects::only(before, after, set![register])
        &&& after.paused() == before.paused()
        &&& before.m.kept(after.m)
    }
}

proof fn lemma_changes_bits<E>(run: Run<E>, register: Register, clear: u8, set: u8)
    requires
        register != Register::RegBankSel,
        set & clear == set,
    ensures
        changes_bits(
            run,
            run.select(Bank::Bank0).modify(register, clear, set),
            register,
            clear,
            set,
        ),
{
    if run.select(Bank::Bank0).modify(register, clear, set).ok() {
        effects::lemma_rewrote(run.select(Bank::Bank0), register, clear, set);
    }
}

proof fn lemma_flag(mask: u8, on: bool)
    ensures
        device::spec_flag(mask, on) & mask == device::spec_flag(mask, on),
{
    assert(device::spec_flag(mask, on) & mask == device::spec_flag(mask, on)) by (bit_vector);
}

/// Bits as numbers.
proof fn lemma_numbers()
    by (bit_vector)
    ensures
        SLEEP | LP_EN == 0x60u8,
        LP_EN | SLEEP == 0x60u8,
        SLEEP | CLKSEL == 0x47u8,
        0x00u8 & 0x60u8 == 0x00u8,
        0x20u8 & 0x60u8 == 0x20u8,
        0x40u8 & 0x40u8 == 0x40u8,
        0x80u8 & 0x80u8 == 0x80u8,
        0x01u8 & 0x47u8 == 0x01u8,
        0x00u8 & 0x07u8 == 0x00u8,
        0x01u8 & 0x07u8 == 0x01u8,
        0x07u8 & 0x07u8 == 0x07u8,
        ACCEL_FS_SEL | ACCEL_DLPFCFG | ACCEL_FCHOICE == 0x3Fu8,
        GYRO_FS_SEL | GYRO_DLPFCFG | GYRO_FCHOICE == 0x3Fu8,
        0x00u8 & 0x20u8 == 0x00u8,
        0x00u8 & 0x10u8 == 0x00u8,
{
}

/// Sleep is bit 6 of `PWR_MGMT_1`, and nothing else changes with it.
pub proof fn sleep_is_one_bit<E>(run: Run<E>, on: bool)
    ensures
        changes_bits(run, device::switch_sleep(run, on), Register::PwrMgmt1, 0x40, if on {
            0x40
        } else {
            0
        }),
{
    lemma_flag(SLEEP, on);
    lemma_changes_bits(run, Register::PwrMgmt1, SLEEP, device::spec_flag(SLEEP, on));
}

/// The motion processor runs with bit 7 of `USER_CTRL`, and nothing else changes with it.
pub proof fn processor_is_one_bit<E>(run: Run<E>, on: bool)
    ensures
        changes_bits(run, device::switch_processor(run, on), Register::UserCtrl, 0x80, if on {
            0x80
        } else {
            0
        }),
{
    lemma_flag(DMP_EN, on);
    lemma_changes_bits(run, Register::UserCtrl, DMP_EN, device::spec_flag(DMP_EN, on));
}

/// The FIFO runs with bit 6 of `USER_CTRL`, and nothing else changes with it.
pub proof fn fifo_is_one_bit<E>(run: Run<E>, on: bool)
    ensures
        changes_bits(run, device::switch_fifo(run, on), Register::UserCtrl, 0x40, if on {
            0x40
        } else {
            0
        }),
{
    lemma_flag(FIFO_EN, on);
    lemma_changes_bits(run, Register::UserCtrl, FIFO_EN, device::spec_flag(FIFO_EN, on));
}

/// For SPI, bit 4 of `USER_CTRL` turns the I2C slave interface off, and nothing else
/// changes with it.
pub proof fn spi_is_one_bit<E>(run: Run<E>)
    ensures
        changes_bits(run, device::leave_i2c(run), Register::UserCtrl, 0x10, 0x10),
{
    lemma_flag(I2C_IF_DIS, true);
    lemma_changes_bits(run, Register::UserCtrl, I2C_IF_DIS, I2C_IF_DIS);
}

/// Bit 3 of `USER_CTRL` resets the motion processor, and nothing else changes with it.
pub proof fn processor_reset_is_one_bit<E>(run: Run<E>)
    ensures
        changes_bits(run, dmp::reset(run), Register::UserCtrl, 0x08, 0x08),
{
    lemma_flag(DMP_RST, true);
    lemma_changes_bits(run, Register::UserCtrl, DMP_RST, DMP_RST);
}

/// Bit 2 of `USER_CTRL` clears the FIFO, and nothing else changes with it.
pub proof fn clearing_is_one_bit<E>(run: Run<E>)
    ensures
        changes_bits(run, dmp::clear_fifo(run), Register::UserCtrl, 0x04, 0x04),
{
    lemma_flag(SRAM_RST, true);
    lemma_changes_bits(run, Register::UserCtrl, SRAM_RST, SRAM_RST);
}

/// The motion processor may raise its interrupt with bit 1 of `INT_ENABLE`, and nothing
/// else changes with it.
pub proof fn processor_interrupt_is_one_bit<E>(run: Run<E>, on: bool)
    ensures
        changes_bits(run, dmp::switch_interrupt(run, on), Register::IntEnable, 0x02, if on {
            0x02
        } else {
            0
        }),
{
    lemma_flag(DMP_INT1_EN, on);
    lemma_changes_bits(run, Register::IntEnable, DMP_INT1_EN, device::spec_flag(DMP_INT1_EN, on));
}

/// What was set for the interrupt of the motion processor is what is read of it.
pub proof fn processor_interrupt_is_read<E>(run: Run<E>)
    ensures
        ({
            let (read, on) = dmp::interrupt_on(run);
            &&& effects::goes_through(run, read)
            &&& read.ok() ==> on == (read.saw_last(Register::IntEnable) & 0x02 != 0)
            &&& effects::only(run, read, set![])
        }),
{
}

/// The temperature sensor is off with bit 3 of `PWR_MGMT_1`, and nothing else changes
/// with it.
pub proof fn temperature_is_one_bit<E>(run: Run<E>, on: bool)
    ensures
        changes_bits(run, power::switch_temperature(run, on), Register::PwrMgmt1, 0x08, if on {
            0
        } else {
            0x08
        }),
{
    lemma_flag(TEMP_DIS, !on);
    lemma_changes_bits(run, Register::PwrMgmt1, TEMP_DIS, device::spec_flag(TEMP_DIS, !on));
}

/// The clock source is the number in bits 2 to 0 of `PWR_MGMT_1`, and nothing else changes
/// with it.
pub proof fn clock_is_a_number<E>(run: Run<E>, source: ClockSource)
    ensures
        changes_bits(
            run,
            power::set_clock(run, source),
            Register::PwrMgmt1,
            0x07,
            match source {
                ClockSource::Internal20MHz => 0,
                ClockSource::AutoSelect => 1,
                ClockSource::Stop => 7,
            },
        ),
{
    lemma_numbers();
    lemma_changes_bits(run, Register::PwrMgmt1, CLKSEL, source.code());
}

/// What the accelerometer and the gyroscope are told to do continuously they do, and what
/// is not named stays as it was read.
pub proof fn continuous_is_no_cycle<E>(run: Run<E>, accel: bool, gyro: bool)
    ensures
        ({
            let done = power::run_continuously(run, accel, gyro);
            let value = done.wrote(Register::LpConfig).last();
            let was = done.saw_last(Register::LpConfig);
            &&& effects::goes_through(run, done)
            &&& done.ok() ==> {
                &&& effects::set_to(run, done, Register::LpConfig, value)
                &&& effects::only(run, done, set![Register::LpConfig])
                &&& value & 0x20 == if accel {
                    0
                } else {
                    was & 0x20
                }
                &&& value & 0x10 == if gyro {
                    0
                } else {
                    was & 0x10
                }
                &&& value & 0xCF == was & 0xCF
                &&& done.paused() == run.paused()
                &&& run.m.kept(done.m)
            }
        }),
{
    let was = run.select(Bank::Bank0).next_byte();
    assert({
        let value = (was & !(device::spec_flag(ACCEL_CYCLE, accel) | device::spec_flag(
            GYRO_CYCLE,
            gyro,
        ))) | 0;
        &&& value & 0x20 == if accel {
            0
        } else {
            was & 0x20
        }
        &&& value & 0x10 == if gyro {
            0
        } else {
            was & 0x10
        }
        &&& value & 0xCF == was & 0xCF
    }) by (bit_vector);
}

/// What runs in duty cycles is what was asked for, each on its own: the I2C master with
/// bit 6 of `LP_CONFIG`, the accelerometer with bit 5, the gyroscope with bit 4.
pub proof fn cycles_are_bits<E>(run: Run<E>, config: CycleConfig)
    ensures
        ({
            let done = power::set_cycles(run, config);
            let value = done.wrote(Register::LpConfig).last();
            &&& effects::goes_through(run, done)
            &&& done.ok() ==> {
                &&& effects::set_to(run, done, Register::LpConfig, value)
                &&& effects::only(run, done, set![Register::LpConfig])
                &&& (value & 0x40 != 0) == config.enable_i2c_master_cycle
                &&& (value & 0x20 != 0) == config.enable_accel_cycle
                &&& (value & 0x10 != 0) == config.enable_gyro_cycle
                &&& value & 0x8F == 0
                &&& done.paused() == run.paused()
                &&& run.m.kept(done.m)
            }
        }),
{
    let a = config.enable_accel_cycle;
    let b = config.enable_gyro_cycle;
    let c = config.enable_i2c_master_cycle;
    assert({
        let value = device::spec_flag(ACCEL_CYCLE, a) | device::spec_flag(GYRO_CYCLE, b)
            | device::spec_flag(I2C_MST_CYCLE, c);
        &&& (value & 0x40 != 0) == c
        &&& (value & 0x20 != 0) == a
        &&& (value & 0x10 != 0) == b
        &&& value & 0x8F == 0
    }) by (bit_vector);
}

/// An axis is off if and only if it was switched off, each on its own: from bit 5 of
/// `PWR_MGMT_2` down the X, Y and Z axis of the accelerometer, then of the gyroscope.
pub proof fn axes_are_bits<E>(run: Run<E>, config: SensorPowerConfig)
    ensures
        ({
            let done = power::set_axes(run, config);
            let value = done.wrote(Register::PwrMgmt2).last();
            &&& effects::goes_through(run, done)
            &&& done.ok() ==> {
                &&& effects::set_to(run, done, Register::PwrMgmt2, value)
                &&& effects::only(run, done, set![Register::PwrMgmt2])
                &&& (value & 0x20 != 0) == config.disable_accel_x
                &&& (value & 0x10 != 0) == config.disable_accel_y
                &&& (value & 0x08 != 0) == config.disable_accel_z
                &&& (value & 0x04 != 0) == config.disable_gyro_x
                &&& (value & 0x02 != 0) == config.disable_gyro_y
                &&& (value & 0x01 != 0) == config.disable_gyro_z
                &&& value <= 0x3F
                &&& done.paused() == run.paused()
                &&& run.m.kept(done.m)
            }
        }),
{
    crate::chip::axis_bits_tell_axes(config);
    let value = power::axis_bits(config);
    assert(value <= 0x3F) by (bit_vector)
        requires
            value & 0x3F == value,
    ;
}

/// A power mode is two bits of `PWR_MGMT_1`: bit 6 is set for sleep alone, and bit 5 for
/// low power alone. Sleep leaves bit 5 as it was, and nothing else changes. Then a
/// millisecond passes.
pub proof fn power_mode_is_two_bits<E>(run: Run<E>, mode: PowerMode)
    ensures
        ({
            let done = power::set_mode(run, mode);
            &&& effects::goes_through(run, done)
            &&& done.ok() ==> {
                &&& match mode {
                    PowerMode::Normal => effects::rewrote(run, done, Register::PwrMgmt1, 0x60, 0),
                    PowerMode::LowPower => effects::rewrote(
                        run,
                        done,
                        Register::PwrMgmt1,
                        0x60,
                        0x20,
                    ),
                    PowerMode::Sleep => effects::rewrote(
                        run,
                        done,
                        Register::PwrMgmt1,
                        0x40,
                        0x40,
                    ),
                }
                &&& effects::only(run, done, set![Register::PwrMgmt1])
                &&& done.paused() == run.paused().push(Pause::Ms(1))
                &&& run.m.kept(done.m)
            }
        }),
{
    lemma_numbers();
    let (clear, set) = power::mode_bits(mode);
    if power::set_mode(run, mode).ok() {
        effects::lemma_rewrote(run.select(Bank::Bank0), Register::PwrMgmt1, clear, set);
    }
}

/// The chip is reset with bit 7 of `PWR_MGMT_1`, has a hundred milliseconds before it is
/// accessed again, and is then awake, with the best clock. Nothing else is written.
pub proof fn start_resets_and_wakes<E>(run: Run<E>)
    ensures
        ({
            let done = device::start(run);
            let written = done.wrote(Register::PwrMgmt1);
            let seen = done.saw(Register::PwrMgmt1);
            let n = run.wrote(Register::PwrMgmt1).len() as int;
            let k = done.m.trace.len() - 3;
            &&& effects::goes_through(run, done)
            &&& done.ok() ==> {
                &&& written == run.wrote(Register::PwrMgmt1).push(written[n]).push(written[n + 1])
                &&& written[n] & 0x80 == 0x80
                &&& written[n + 1] & 0x47 == 0x01
                &&& written[n + 1] & 0xB8 == seen.last()[0] & 0xB8
                &&& done.m.trace[k] == Event::<E>::Pause(Pause::Ms(100))
                &&& effects::writes(done.m.trace.take(k), Register::PwrMgmt1)
                    == run.wrote(Register::PwrMgmt1).push(written[n])
                &&& effects::only(run, done, set![Register::PwrMgmt1])
                &&& done.paused() == run.paused().push(Pause::Ms(100))
                &&& run.m.kept(done.m)
            }
        }),
{
    lemma_numbers();
    let reset = run.select(Bank::Bank0).modify(Register::PwrMgmt1, DEVICE_RESET, DEVICE_RESET);
    let waited = reset.ms(100);
    let done = device::start(run);
    if done.ok() {
        effects::lemma_rewrote(
            run.select(Bank::Bank0),
            Register::PwrMgmt1,
            DEVICE_RESET,
            DEVICE_RESET,
        );
        effects::lemma_rewrote(waited, Register::PwrMgmt1, SLEEP | CLKSEL, 1);
        assert(done.m.trace.take(done.m.trace.len() - 3) =~= reset.m.trace
            && done.m.trace[done.m.trace.len() - 3] == Event::<E>::Pause(Pause::Ms(100))) by {
            reveal(Run::read);
            reveal(Run::put);
            reveal(Run::pause);
        }
        assert(!0x47u8 == 0xB8u8) by (bit_vector);
    }
}

/// Emptying the FIFOs raises their reset bits and lowers them again, and nothing else
/// changes.
pub proof fn emptying_raises_and_lowers<E>(run: Run<E>)
    ensures
        ({
            let done = fifo::empty(run);
            &&& effects::goes_through(run, done)
            &&& done.ok() ==> {
                &&& done.wrote(Register::FifoRst) == run.wrote(Register::FifoRst).push(0x1F).push(0)
                &&& effects::only(run, done, set![Register::FifoRst])
                &&& done.paused() == run.paused()
                &&& run.m.kept(done.m)
            }
        }),
{
}

/// Each source goes into the FIFO if and only if it was asked for, on its own. In
/// `FIFO_EN_2`, bit 4 is the accelerometer, bits 3 to 1 are the Z, Y and X axis of the
/// gyroscope, and bit 0 is the temperature. In `FIFO_EN_1`, bits 3 to 0 are the slaves of
/// the I2C master.
pub proof fn fifo_sources_are_bits<E>(run: Run<E>, config: FifoConfigAdvanced, mode: u8)
    ensures
        ({
            let done = fifo::configure(run, config, mode);
            let slaves = done.wrote(Register::FifoEn1).last();
            let sensors = done.wrote(Register::FifoEn2).last();
            &&& effects::goes_through(run, done)
            &&& done.ok() ==> {
                &&& effects::set_to(run, done, Register::FifoEn1, slaves)
                &&& effects::set_to(run, done, Register::FifoEn2, sensors)
                &&& effects::set_to(run, done, Register::FifoMode, mode)
                &&& effects::only(
                    run,
                    done,
                    set![Register::FifoEn1, Register::FifoEn2, Register::FifoMode],
                )
                &&& (slaves & 0x01 != 0) == config.enable_slv0
                &&& (slaves & 0x02 != 0) == config.enable_slv1
                &&& (slaves & 0x04 != 0) == config.enable_slv2
                &&& (slaves & 0x08 != 0) == config.enable_slv3
                &&& slaves & 0xF0 == 0
                &&& (sensors & 0x10 != 0) == config.enable_accel
                &&& (sensors & 0x08 != 0) == config.enable_gyro_z
                &&& (sensors & 0x04 != 0) == config.enable_gyro_y
                &&& (sensors & 0x02 != 0) == config.enable_gyro_x
                &&& (sensors & 0x01 != 0) == config.enable_temp
                &&& sensors & 0xE0 == 0
                &&& done.paused() == run.paused()
                &&& run.m.kept(done.m)
            }
        }),
{
    let a = config.enable_slv0;
    let b = config.enable_slv1;
    let c = config.enable_slv2;
    let d = config.enable_slv3;
    let p = config.enable_accel;
    let x = config.enable_gyro_x;
    let y = config.enable_gyro_y;
    let z = config.enable_gyro_z;
    let q = config.enable_temp;
    assert({
        let slaves = device::spec_flag(SLV_0_FIFO_EN, a) | device::spec_flag(SLV_1_FIFO_EN, b)
            | device::spec_flag(SLV_2_FIFO_EN, c) | device::spec_flag(SLV_3_FIFO_EN, d);
        let sensors = device::spec_flag(ACCEL_FIFO_EN, p) | device::spec_flag(GYRO_X_FIFO_EN, x)
            | device::spec_flag(GYRO_Y_FIFO_EN, y) | device::spec_flag(GYRO_Z_FIFO_EN, z)
            | device::spec_flag(TEMP_FIFO_EN, q);
        &&& (slaves & 0x01 != 0) == a
        &&& (slaves & 0x02 != 0) == b
        &&& (slaves & 0x04 != 0) == c
        &&& (slaves & 0x08 != 0) == d
        &&& slaves & 0xF0 == 0
        &&& (sensors & 0x10 != 0) == p
        &&& (sensors & 0x08 != 0) == z
        &&& (sensors & 0x04 != 0) == y
        &&& (sensors & 0x02 != 0) == x
        &&& (sensors & 0x01 != 0) == q
        &&& sensors & 0xE0 == 0
    }) by (bit_vector);
}

/// By sensor, the gyroscope goes into the FIFO with all three axes, no slave goes into
/// it, and all else is as by axis. A full FIFO keeps what is new with mode 0 and what is
/// old with a mode other than 0, of which every bit is set.
pub proof fn sensors_are_axes(config: FifoConfig)
    ensures
        ({
            let advanced = config.spec_advanced();
            &&& advanced.enable_accel == config.enable_accel
            &&& advanced.enable_gyro_x == config.enable_gyro
            &&& advanced.enable_gyro_y == config.enable_gyro
            &&& advanced.enable_gyro_z == config.enable_gyro
            &&& advanced.enable_temp == config.enable_temp
            &&& advanced.mode == config.mode
            &&& !advanced.enable_slv0 && !advanced.enable_slv1
            &&& !advanced.enable_slv2 && !advanced.enable_slv3
            &&& config.mode.code() == 0 <==> config.mode is Stream
            &&& config.mode.code() == 0x1F <==> config.mode is Snapshot
            &&& nonblocking::mode_number(config.mode) == 0 <==> config.mode is Stream
            &&& nonblocking::mode_number(config.mode) == 1 <==> config.mode is Snapshot
        }),
{
}

/// With the sources goes the mode: 0 where new data replaces the oldest; where it is
/// dropped, a 1 for every FIFO, and 1 without blocking.
pub proof fn fifo_mode_goes_with_the_sources<E>(run: Run<E>, config: FifoConfigAdvanced)
    ensures
        fifo::apply(run, config).ok() ==> effects::set_to(
            run,
            fifo::apply(run, config),
            Register::FifoMode,
            if config.mode is Stream {
                0
            } else {
                0x1F
            },
        ),
        nonblocking::apply(run, config).ok() ==> effects::set_to(
            run,
            nonblocking::apply(run, config),
            Register::FifoMode,
            if config.mode is Stream {
                0
            } else {
                1
            },
        ),
        exists|mode: u8| fifo::apply(run, config) == #[trigger] fifo::configure(run, config, mode),
        exists|mode: u8|
            nonblocking::apply(run, config) == #[trigger] fifo::configure(run, config, mode),
{
    let a = fifo::configure(run, config, config.mode.code());
    let b = fifo::configure(run, config, nonblocking::mode_number(config.mode));
}

/// Each of these brings the bits that are in use of the register that it is about, as they
/// were read, and nothing is written.
pub proof fn each_look_is_at_its_register<E>(run: Run<E>)
    ensures
        ({
            let (done, value) = power::axes_off(run);
            &&& effects::goes_through(run, done)
            &&& effects::only(run, done, set![])
            &&& done.paused() == run.paused()
            &&& run.m.kept(done.m)
            &&& done.ok() ==> {
                &&& done.saw(Register::PwrMgmt2) == run.saw(Register::PwrMgmt2).push(
                    done.saw(Register::PwrMgmt2).last(),
                )
                &&& value == done.saw_last(Register::PwrMgmt2) & 0x3F
            }
        }),
        ({
            let (done, value) = power::cycles(run);
            &&& effects::goes_through(run, done)
            &&& effects::only(run, done, set![])
            &&& done.paused() == run.paused()
            &&& run.m.kept(done.m)
            &&& done.ok() ==> {
                &&& done.saw(Register::LpConfig) == run.saw(Register::LpConfig).push(
                    done.saw(Register::LpConfig).last(),
                )
                &&& value == done.saw_last(Register::LpConfig) & 0x70
            }
        }),
        ({
            let (done, value) = power::alignment(run);
            &&& effects::goes_through(run, done)
            &&& effects::only(run, done, set![])
            &&& done.paused() == run.paused()
            &&& run.m.kept(done.m)
            &&& done.ok() ==> {
                &&& done.saw(Register::OdrAlignEn) == run.saw(Register::OdrAlignEn).push(
                    done.saw(Register::OdrAlignEn).last(),
                )
                &&& value == done.saw_last(Register::OdrAlignEn) & 0x01
            }
        }),
        ({
            let (done, value) = power::processor_power(run);
            &&& effects::goes_through(run, done)
            &&& effects::only(run, done, set![])
            &&& done.paused() == run.paused()
            &&& run.m.kept(done.m)
            &&& done.ok() ==> {
                &&& done.saw(Register::ModCtrlUsr) == run.saw(Register::ModCtrlUsr).push(
                    done.saw(Register::ModCtrlUsr).last(),
                )
                &&& value == done.saw_last(Register::ModCtrlUsr) & 0x01
            }
        }),
{
}

/// The interrupt pin behaves as it was asked to, each trait on its own: from bit 7 of
/// `INT_PIN_CFG` down, active low, open-drain, latched, cleared by any read.
pub proof fn pin_is_bits<E>(run: Run<E>, config: InterruptPinConfig)
    ensures
        ({
            let done = interrupt::set_pin(run, config);
            let value = done.wrote(Register::IntPinCfg).last();
            &&& effects::goes_through(run, done)
            &&& done.ok() ==> {
                &&& effects::set_to(run, done, Register::IntPinCfg, value)
                &&& effects::only(run, done, set![Register::IntPinCfg])
                &&& (value & 0x80 != 0) == config.active_low
                &&& (value & 0x40 != 0) == config.open_drain
                &&& (value & 0x20 != 0) == config.latch_enabled
                &&& (value & 0x10 != 0) == config.clear_on_any_read
                &&& value & 0x0F == 0
                &&& done.paused() == run.paused()
                &&& run.m.kept(done.m)
            }
        }),
{
    let a = config.active_low;
    let b = config.open_drain;
    let c = config.latch_enabled;
    let d = config.clear_on_any_read;
    assert({
        let value = device::spec_flag(INT1_ACTL, a) | device::spec_flag(INT1_OPEN, b)
            | device::spec_flag(INT1_LATCH_INT_EN, c) | device::spec_flag(INT_ANYRD_2CLEAR, d);
        &&& (value & 0x80 != 0) == a
        &&& (value & 0x40 != 0) == b
        &&& (value & 0x20 != 0) == c
        &&& (value & 0x10 != 0) == d
        &&& value & 0x0F == 0
    }) by (bit_vector);
}

/// Each source raises an interrupt if and only if it was asked to, on its own: motion,
/// the clock, the motion processor and the I2C master with bits 3 to 0 of `INT_ENABLE`,
/// new data with bit 0 of `INT_ENABLE_1`, and the five FIFOs together, overflow with
/// `INT_ENABLE_2` and watermark with `INT_ENABLE_3`.
pub proof fn interrupt_sources_are_bits<E>(run: Run<E>, config: InterruptConfig)
    ensures
        ({
            let done = interrupt::configure(run, config);
            let value = done.wrote(Register::IntEnable).last();
            &&& effects::goes_through(run, done)
            &&& done.ok() ==> {
                &&& effects::set_to(run, done, Register::IntEnable, value)
                &&& (value & 0x08 != 0) == config.wake_on_motion
                &&& (value & 0x04 != 0) == config.pll_ready
                &&& (value & 0x02 != 0) == config.dmp
                &&& (value & 0x01 != 0) == config.i2c_master
                &&& value & 0xF0 == 0
                &&& effects::set_to(run, done, Register::IntEnable1, if config.raw_data_ready {
                    0x01
                } else {
                    0
                })
                &&& effects::set_to(run, done, Register::IntEnable2, if config.fifo_overflow {
                    0x1F
                } else {
                    0
                })
                &&& effects::set_to(run, done, Register::IntEnable3, if config.fifo_watermark {
                    0x1F
                } else {
                    0
                })
                &&& effects::only(
                    run,
                    done,
                    set![
                        Register::IntEnable,
                        Register::IntEnable1,
                        Register::IntEnable2,
                        Register::IntEnable3,
                    ],
                )
                &&& done.paused() == run.paused()
                &&& run.m.kept(done.m)
            }
        }),
{
    let a = config.wake_on_motion;
    let b = config.dmp;
    let c = config.i2c_master;
    let d = config.pll_ready;
    assert({
        let value = device::spec_flag(WOM_INT_EN, a) | device::spec_flag(DMP_INT1_EN, b)
            | device::spec_flag(I2C_MST_INT_EN, c) | device::spec_flag(PLL_RDY_EN, d);
        &&& (value & 0x08 != 0) == a
        &&& (value & 0x04 != 0) == d
        &&& (value & 0x02 != 0) == b
        &&& (value & 0x01 != 0) == c
        &&& value & 0xF0 == 0
    }) by (bit_vector);
}

/// Each source is reported if and only if its bit was read as set: motion, the clock,
/// the motion processor and the I2C master from bits 3 to 0 of `INT_STATUS`, new data
/// from bit 0 of `INT_STATUS_1`, overflow from `INT_STATUS_2` and watermark from
/// `INT_STATUS_3`, of any of the five FIFOs. Nothing is written.
pub proof fn interrupt_status_is_bits<E>(run: Run<E>)
    ensures
        ({
            let (read, status) = interrupt::status(run);
            let s0 = read.saw_last(Register::IntStatus);
            &&& effects::goes_through(run, read)
            &&& effects::only(run, read, set![])
            &&& read.paused() == run.paused()
            &&& read.ok() ==> {
                &&& status.wake_on_motion == (s0 & 0x08 != 0)
                &&& status.pll_ready == (s0 & 0x04 != 0)
                &&& status.dmp == (s0 & 0x02 != 0)
                &&& status.i2c_master == (s0 & 0x01 != 0)
                &&& status.raw_data_ready == (read.saw_last(Register::IntStatus1) & 0x01 != 0)
                &&& status.fifo_overflow == (read.saw_last(Register::IntStatus2) & 0x1F != 0)
                &&& status.fifo_watermark == (read.saw_last(Register::IntStatus3) & 0x1F != 0)
                &&& run.m.kept(read.m)
            }
        }),
{
}

/// A sensor has new data, an axis saw motion and a FIFO overflowed if and only if its
/// bit was read as set. Nothing is written.
pub proof fn other_statuses_are_bits<E>(run: Run<E>)
    ensures
        ({
            let (read, ready) = interrupt::data_ready(run);
            let bits = read.saw_last(Register::DataRdyStatus);
            &&& effects::goes_through(run, read)
            &&& effects::only(run, read, set![])
            &&& read.ok() ==> {
                &&& ready.sensor0_ready == (bits & 0x01 != 0)
                &&& ready.sensor1_ready == (bits & 0x02 != 0)
                &&& ready.sensor2_ready == (bits & 0x04 != 0)
                &&& ready.sensor3_ready == (bits & 0x08 != 0)
            }
        }),
        ({
            let (read, motion) = interrupt::motion_seen(run);
            let bits = read.saw_last(Register::DataRdyStatus);
            &&& effects::goes_through(run, read)
            &&& effects::only(run, read, set![])
            &&& read.ok() ==> {
                &&& motion.x_motion == (bits & 0x10 != 0)
                &&& motion.y_motion == (bits & 0x20 != 0)
                &&& motion.z_motion == (bits & 0x40 != 0)
            }
        }),
        ({
            let (read, overflow) = fifo::overflows(run);
            let bits = read.saw_last(Register::IntStatus2);
            &&& effects::goes_through(run, read)
            &&& effects::only(run, read, set![])
            &&& read.ok() ==> {
                &&& overflow.fifo0 == (bits & 0x01 != 0)
                &&& overflow.fifo1 == (bits & 0x02 != 0)
                &&& overflow.fifo2 == (bits & 0x04 != 0)
                &&& overflow.fifo3 == (bits & 0x08 != 0)
                &&& overflow.fifo4 == (bits & 0x10 != 0)
            }
        }),
{
}

/// The power status is what the registers are read to hold: sleep, low power and the
/// temperature sensor from bits 6, 5 and 3 of `PWR_MGMT_1`, the duty cycles from bits 6
/// to 4 of `LP_CONFIG`. The chip sleeps, whether in low power or not, if bit 6 is set.
pub proof fn power_status_is_bits<E>(run: Run<E>)
    ensures
        ({
            let (read, status) = power::status(run);
            let p = read.saw_last(Register::PwrMgmt1);
            let c = read.saw_last(Register::LpConfig);
            &&& effects::goes_through(run, read)
            &&& effects::only(run, read, set![])
            &&& read.ok() ==> {
                &&& status.sleep == (p & 0x40 != 0)
                &&& status.low_power == (p & 0x20 != 0)
                &&& status.temp_disabled == (p & 0x08 != 0)
                &&& status.mode is Sleep <==> p & 0x40 != 0
                &&& status.mode is LowPower <==> p & 0x40 == 0 && p & 0x20 != 0
                &&& status.mode is Normal <==> p & 0x40 == 0 && p & 0x20 == 0
                &&& status.i2c_master_cycle == (c & 0x40 != 0)
                &&& status.accel_cycle == (c & 0x20 != 0)
                &&& status.gyro_cycle == (c & 0x10 != 0)
            }
        }),
{
}

/// Looking at a register brings what it was read to hold, as far as its bits are in use,
/// and writes nothing.
pub proof fn looking_brings_what_is_there<E>(run: Run<E>)
    ensures
        ({
            let (read, value) = device::ask_identity(run);
            &&& effects::goes_through(run, read)
            &&& effects::only(run, read, set![])
            &&& read.ok() ==> value == read.saw_last(Register::WhoAmI)
        }),
        ({
            let (read, value) = power::user_ctrl(run);
            &&& effects::goes_through(run, read)
            &&& effects::only(run, read, set![])
            &&& read.ok() ==> value == read.saw_last(Register::UserCtrl)
        }),
        ({
            let (read, value) = dmp::routing(run);
            &&& effects::goes_through(run, read)
            &&& effects::only(run, read, set![])
            &&& read.ok() ==> value == read.saw_last(Register::FifoEn2)
        }),
        forall|register: Register, in_use: u8|
            ({
                let (read, value) = #[trigger] power::look(run, register, in_use);
                &&& effects::goes_through(run, read)
                &&& effects::only(run, read, set![])
                &&& read.ok() ==> value == read.saw_last(register) & in_use
            }),
        forall|register: Register|
            ({
                let (read, value) = #[trigger] power::look_at_switch(run, register);
                &&& effects::goes_through(run, read)
                &&& effects::only(run, read, set![])
                &&& read.ok() ==> value == read.saw_last(register) & 0x01
            }),
        ({
            let (read, (config, divider)) = power::gyro_registers(run);
            &&& effects::goes_through(run, read)
            &&& effects::only(run, read, set![])
            &&& read.ok() ==> {
                &&& config == read.saw_last(Register::GyroConfig1) & 0x3F
                &&& divider == read.saw_last(Register::GyroSmplrtDiv)
            }
        }),
        ({
            let (read, (config, high, low)) = power::accel_registers(run);
            &&& effects::goes_through(run, read)
            &&& effects::only(run, read, set![])
            &&& read.ok() ==> {
                &&& config == read.saw_last(Register::AccelConfig) & 0x3F
                &&& high == read.saw_last(Register::AccelSmplrtDiv1) & 0x0F
                &&& low == read.saw_last(Register::AccelSmplrtDiv2)
            }
        }),
{
}

/// The accelerometer gets the settings that were asked for: in `ACCEL_CONFIG` the use of
/// the filter in bit 0, the range in bits 2 and 1, the filter in bits 5 to 3, and the
/// divider, of twelve bits, in two registers. It runs continuously, the driver remembers
/// the settings, and nothing else changes.
pub proof fn accelerometer_settings_are_bits<E>(run: Run<E>, config: AccelConfig)
    ensures
        ({
            let done = accelerometer::configure(run, config);
            let bits = done.wrote(Register::AccelConfig).last() & 0x3F;
            let high = done.wrote(Register::AccelSmplrtDiv1).last();
            let low = done.wrote(Register::AccelSmplrtDiv2).last();
            &&& effects::goes_through(run, done)
            &&& done.ok() ==> {
                &&& effects::rewrote(run, done, Register::AccelConfig, 0x3F, bits)
                &&& (bits % 2 == 1) == config.dlpf_enable
                &&& (bits / 2) % 4 == config.full_scale.code()
                &&& bits / 8 == config.dlpf.code()
                &&& effects::set_to(run, done, Register::AccelSmplrtDiv1, high)
                &&& effects::set_to(run, done, Register::AccelSmplrtDiv2, low)
                &&& high < 16
                &&& 256 * high + low == config.sample_rate_div % 4096
                &&& effects::rewrote(run, done, Register::LpConfig, 0x20, 0)
                &&& effects::only(
                    run,
                    done,
                    set![
                        Register::AccelConfig,
                        Register::AccelSmplrtDiv1,
                        Register::AccelSmplrtDiv2,
                        Register::LpConfig,
                    ],
                )
                &&& done.paused() == run.paused()
                &&& run.m.kept(
                    (Model {
                        state: State { accel_config: run.state().accel_config, ..done.state() },
                        ..done.m
                    }),
                )
                &&& done.state().accel_config == config
            }
        }),
{
    lemma_numbers();
    lemma_flag(ACCEL_CYCLE, false);
    let done = accelerometer::configure(run, config);
    let bits = accelerometer::config_bits(config);
    assert(bits <= 0x3F);
    assert(bits & 0x3F == bits) by (bit_vector)
        requires
            bits <= 0x3F,
    ;
    let a = run.select(Bank::Bank0);
    let b = a.modify(Register::LpConfig, ACCEL_CYCLE, 0).select(Bank::Bank2);
    if done.ok() {
        effects::lemma_rewrote(a, Register::LpConfig, ACCEL_CYCLE, 0);
        effects::lemma_rewrote(
            b,
            Register::AccelConfig,
            ACCEL_FS_SEL | ACCEL_DLPFCFG | ACCEL_FCHOICE,
            bits,
        );
    }
}

/// The gyroscope gets the settings that were asked for: in `GYRO_CONFIG_1` the use of
/// the filter in bit 0, the range in bits 2 and 1, the filter in bits 5 to 3, and the
/// divider in a register of its own. It runs continuously, the driver remembers the
/// settings, and nothing else changes.
pub proof fn gyroscope_settings_are_bits<E>(run: Run<E>, config: GyroConfig)
    ensures
        ({
            let done = gyroscope::configure(run, config);
            let bits = done.wrote(Register::GyroConfig1).last() & 0x3F;
            &&& effects::goes_through(run, done)
            &&& done.ok() ==> {
                &&& effects::rewrote(run, done, Register::GyroConfig1, 0x3F, bits)
                &&& (bits % 2 == 1) == config.dlpf_enable
                &&& (bits / 2) % 4 == config.full_scale.code()
                &&& bits / 8 == config.dlpf.code()
                &&& effects::set_to(run, done, Register::GyroSmplrtDiv, config.sample_rate_div)
                &&& effects::rewrote(run, done, Register::LpConfig, 0x10, 0)
                &&& effects::only(
                    run,
                    done,
                    set![Register::GyroConfig1, Register::GyroSmplrtDiv, Register::LpConfig],
                )
                &&& done.paused() == run.paused()
                &&& run.m.kept(
                    (Model {
                        state: State { gyro_config: run.state().gyro_config, ..done.state() },
                        ..done.m
                    }),
                )
                &&& done.state().gyro_config == config
            }
        }),
{
    lemma_numbers();
    lemma_flag(GYRO_CYCLE, false);
    let done = gyroscope::configure(run, config);
    let bits = gyroscope::config_bits(config);
    assert(bits <= 0x3F);
    assert(bits & 0x3F == bits) by (bit_vector)
        requires
            bits <= 0x3F,
    ;
    let a = run.select(Bank::Bank0);
    let b = a.modify(Register::LpConfig, GYRO_CYCLE, 0).select(Bank::Bank2);
    if done.ok() {
        effects::lemma_rewrote(a, Register::LpConfig, GYRO_CYCLE, 0);
        effects::lemma_rewrote(
            b,
            Register::GyroConfig1,
            GYRO_FS_SEL | GYRO_DLPFCFG | GYRO_FCHOICE,
            bits,
        );
    }
}

proof fn lemma_low_power_numbers(previous: bool)
    by (bit_vector)
    ensures
        (ACCEL_INTEL_EN | device::spec_flag(ACCEL_INTEL_MODE_INT, previous)) & 0x02u8 != 0,
        ((ACCEL_INTEL_EN | device::spec_flag(ACCEL_INTEL_MODE_INT, previous)) & 0x01u8 != 0)
            == previous,
        (ACCEL_INTEL_EN | device::spec_flag(ACCEL_INTEL_MODE_INT, previous)) & 0xFCu8 == 0,
        DISABLE_GYRO_X | DISABLE_GYRO_Y | DISABLE_GYRO_Z == 0x07u8,
        WOM_INT_EN & WOM_INT_EN == WOM_INT_EN,
        ACCEL_CYCLE & ACCEL_CYCLE == ACCEL_CYCLE,
        LP_EN & (LP_EN | SLEEP) == LP_EN,
{
}

/// In low power only the accelerometer is on, in duty cycles, with the rate that was asked
/// for, the range that the driver remembers and the filter that low power needs. If motion
/// is looked for, its threshold and its kind are those that were asked for, and it may
/// raise an interrupt, after what was pending was read. Nothing else changes.
pub proof fn low_power_leaves_the_accelerometer<E>(run: Run<E>, config: LowPowerConfig)
    ensures
        ({
            let done = power::enter_low_power(run, config);
            let accel = done.wrote(Register::AccelConfig).last();
            let motion = done.wrote(Register::AccelIntelCtrl).last();
            &&& effects::goes_through(run, done)
            &&& done.ok() ==> {
                &&& effects::set_to(run, done, Register::AccelSmplrtDiv1, 0)
                &&& effects::set_to(
                    run,
                    done,
                    Register::AccelSmplrtDiv2,
                    config.accel_rate.divider,
                )
                &&& effects::set_to(run, done, Register::AccelConfig, accel)
                &&& accel % 2 == 1
                &&& (accel / 2) % 4 == run.state().accel_config.full_scale.code()
                &&& accel / 8 == 7
                &&& effects::set_to(run, done, Register::AccelConfig2, 0)
                &&& effects::set_to(run, done, Register::PwrMgmt2, 0x07)
                &&& effects::rewrote(run, done, Register::PwrMgmt1, 0x60, 0x20)
                &&& effects::rewrote(run, done, Register::LpConfig, 0x20, 0x20)
                &&& effects::only(
                    run,
                    done,
                    set![
                        Register::AccelWomThr,
                        Register::AccelIntelCtrl,
                        Register::AccelSmplrtDiv1,
                        Register::AccelSmplrtDiv2,
                        Register::AccelConfig,
                        Register::AccelConfig2,
                        Register::PwrMgmt2,
                        Register::PwrMgmt1,
                        Register::LpConfig,
                        Register::IntEnable,
                    ],
                )
                &&& run.m.kept(done.m)
                &&& if config.enable_wake_on_motion {
                    &&& effects::set_to(run, done, Register::AccelWomThr, config.wom_threshold)
                    &&& effects::set_to(run, done, Register::AccelIntelCtrl, motion)
                    &&& motion & 0x02 != 0
                    &&& (motion & 0x01 != 0) == (config.wom_mode is ComparePrevious)
                    &&& motion & 0xFC == 0
                    &&& effects::rewrote(run, done, Register::IntEnable, 0x08, 0x08)
                    &&& run.works() ==> {
                        &&& done.saw(Register::IntStatus).len() == run.saw(
                            Register::IntStatus,
                        ).len() + 1
                        &&& effects::waits(done.m.trace, Register::IntEnable).last()
                            == done.paused()
                    }
                    &&& done.paused() == run.paused().push(Pause::Ms(1)).push(Pause::Ms(1))
                } else {
                    &&& done.wrote(Register::AccelWomThr) == run.wrote(Register::AccelWomThr)
                    &&& done.wrote(Register::AccelIntelCtrl) == run.wrote(Register::AccelIntelCtrl)
                    &&& done.wrote(Register::IntEnable) == run.wrote(Register::IntEnable)
                    &&& done.paused() == run.paused().push(Pause::Ms(1))
                }
            }
        }),
{
    lemma_numbers();
    lemma_low_power_numbers(config.wom_mode is ComparePrevious);
    let done = power::enter_low_power(run, config);
    if done.ok() {
        let prepared = power::prepare_low_power(run, config).select(Bank::Bank0).put(
            Register::PwrMgmt2,
            power::whole_gyroscope(),
        );
        let lowered = prepared.modify(Register::PwrMgmt1, LP_EN | SLEEP, LP_EN);
        effects::lemma_rewrote(prepared, Register::PwrMgmt1, LP_EN | SLEEP, LP_EN);
        effects::lemma_rewrote(lowered, Register::LpConfig, ACCEL_CYCLE, ACCEL_CYCLE);
        let entered = lowered.modify(Register::LpConfig, ACCEL_CYCLE, ACCEL_CYCLE).ms(1);
        if config.enable_wake_on_motion {
            effects::lemma_rewrote(
                interrupt::status(entered).0.forgive().ms(1),
                Register::IntEnable,
                WOM_INT_EN,
                WOM_INT_EN,
            );
        }
    }
}

/// The same holds without blocking, but that the filter is the widest one, that all other
/// duty cycles are off and that the pause before motion is reported is longer.
pub proof fn nonblocking_low_power_leaves_the_accelerometer<E>(run: Run<E>, config: LowPowerConfig)
    ensures
        ({
            let done = nonblocking::enter_low_power(run, config);
            let accel = done.wrote(Register::AccelConfig).last();
            let motion = done.wrote(Register::AccelIntelCtrl).last();
            &&& effects::goes_through(run, done)
            &&& done.ok() ==> {
                &&& effects::set_to(run, done, Register::AccelSmplrtDiv1, 0)
                &&& effects::set_to(
                    run,
                    done,
                    Register::AccelSmplrtDiv2,
                    config.accel_rate.divider,
                )
                &&& effects::set_to(run, done, Register::AccelConfig, accel)
                &&& accel % 2 == 1
                &&& (accel / 2) % 4 == run.state().accel_config.full_scale.code()
                &&& accel / 8 == 0
                &&& done.wrote(Register::AccelConfig2) == run.wrote(Register::AccelConfig2)
                &&& effects::set_to(run, done, Register::PwrMgmt2, 0x07)
                &&& effects::rewrote(run, done, Register::PwrMgmt1, 0x60, 0x20)
                &&& effects::set_to(run, done, Register::LpConfig, 0x20)
                &&& effects::only(
                    run,
                    done,
                    set![
                        Register::AccelWomThr,
                        Register::AccelIntelCtrl,
                        Register::AccelSmplrtDiv1,
                        Register::AccelSmplrtDiv2,
                        Register::AccelConfig,
                        Register::AccelConfig2,
                        Register::PwrMgmt2,
                        Register::PwrMgmt1,
                        Register::LpConfig,
                        Register::IntEnable,
                    ],
                )
                &&& run.m.kept(done.m)
                &&& if config.enable_wake_on_motion {
                    &&& effects::set_to(run, done, Register::AccelWomThr, config.wom_threshold)
                    &&& effects::set_to(run, done, Register::AccelIntelCtrl, motion)
                    &&& motion & 0x02 != 0
                    &&& (motion & 0x01 != 0) == (config.wom_mode is ComparePrevious)
                    &&& motion & 0xFC == 0
                    &&& effects::rewrote(run, done, Register::IntEnable, 0x08, 0x08)
                    &&& run.works() ==> {
                        &&& done.saw(Register::IntStatus).len() == run.saw(
                            Register::IntStatus,
                        ).len() + 1
                        &&& effects::waits(done.m.trace, Register::IntEnable).last()
                            == done.paused()
                    }
                    &&& done.paused() == run.paused().push(Pause::Ms(1)).push(Pause::Ms(10))
                } else {
                    &&& done.wrote(Register::AccelWomThr) == run.wrote(Register::AccelWomThr)
                    &&& done.wrote(Register::AccelIntelCtrl) == run.wrote(Register::AccelIntelCtrl)
                    &&& done.wrote(Register::IntEnable) == run.wrote(Register::IntEnable)
                    &&& done.paused() == run.paused().push(Pause::Ms(1))
                }
            }
        }),
{
    lemma_numbers();
    lemma_low_power_numbers(config.wom_mode is ComparePrevious);
    let done = nonblocking::enter_low_power(run, config);
    if done.ok() {
        let selected = run.select(Bank::Bank2);
        let looking = if config.enable_wake_on_motion {
            selected.put(Register::AccelWomThr, config.wom_threshold).put(
                Register::AccelIntelCtrl,
                power::wom_bits(config.wom_mode),
            )
        } else {
            selected
        };
        let prepared = looking.put(
            Register::AccelConfig,
            (2 * looking.state().accel_config.full_scale.code() + 1) as u8,
        ).put(Register::AccelSmplrtDiv1, 0).put(
            Register::AccelSmplrtDiv2,
            config.accel_rate.divider,
        ).select(Bank::Bank0).put(Register::PwrMgmt2, power::whole_gyroscope());
        let lowered = prepared.modify(Register::PwrMgmt1, LP_EN | SLEEP, LP_EN);
        effects::lemma_rewrote(prepared, Register::PwrMgmt1, LP_EN | SLEEP, LP_EN);
        let entered = lowered.put(Register::LpConfig, ACCEL_CYCLE).ms(1);
        if config.enable_wake_on_motion {
            effects::lemma_rewrote(
                interrupt::status(entered).0.forgive().ms(10),
                Register::IntEnable,
                WOM_INT_EN,
                WOM_INT_EN,
            );
        }
    }
}

/// After low power the chip is neither asleep nor in low power, no duty cycle is on, and
/// the accelerometer has the settings that the driver remembers. Nothing else changes.
/// Without blocking, the settings of the accelerometer are left as they are.
pub proof fn leaving_low_power_undoes_it<E>(run: Run<E>)
    ensures
        ({
            let done = power::leave_low_power(run);
            let bits = done.wrote(Register::AccelConfig).last();
            let config = run.state().accel_config;
            &&& effects::goes_through(run, done)
            &&& done.ok() ==> {
                &&& effects::rewrote(run, done, Register::PwrMgmt1, 0x60, 0)
                &&& effects::set_to(run, done, Register::LpConfig, 0)
                &&& effects::set_to(run, done, Register::AccelConfig, bits)
                &&& (bits % 2 == 1) == config.dlpf_enable
                &&& (bits / 2) % 4 == config.full_scale.code()
                &&& bits / 8 == config.dlpf.code()
                &&& effects::set_to(run, done, Register::AccelConfig2, 0)
                &&& effects::only(
                    run,
                    done,
                    set![
                        Register::PwrMgmt1,
                        Register::LpConfig,
                        Register::AccelConfig,
                        Register::AccelConfig2,
                    ],
                )
                &&& done.paused() == run.paused()
                &&& run.m.kept(done.m)
            }
        }),
        ({
            let done = nonblocking::leave_low_power(run);
            &&& effects::goes_through(run, done)
            &&& done.ok() ==> {
                &&& effects::rewrote(run, done, Register::PwrMgmt1, 0x60, 0)
                &&& effects::set_to(run, done, Register::LpConfig, 0)
                &&& effects::only(run, done, set![Register::PwrMgmt1, Register::LpConfig])
                &&& done.paused() == run.paused()
                &&& run.m.kept(done.m)
            }
        }),
{
    lemma_numbers();
    let selected = run.select(Bank::Bank0);
    if selected.modify(Register::PwrMgmt1, LP_EN | SLEEP, 0).ok() {
        effects::lemma_rewrote(selected, Register::PwrMgmt1, LP_EN | SLEEP, 0);
    }
}

} // verus!
