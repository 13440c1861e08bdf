//! What the chip holds, and what is read back from it.
//!
//! The laws here say what a caller gets back of what was set, on a chip that keeps
//! what is written to it.

use vstd::prelude::*;

use crate::accelerometer;
use crate::device;
use crate::dmp;
use crate::gyroscope;
use crate::interface::{Access, Pause};
use crate::nonblocking;
use crate::power;
use crate::power::{CycleConfig, PowerMode, SensorPowerConfig};
use crate::registers::{
    Register, ACCEL_CYCLE, ACCEL_DLPFCFG, ACCEL_FCHOICE, ACCEL_FS_SEL, DISABLE_ACCEL_X,
    DISABLE_ACCEL_Y, DISABLE_ACCEL_Z, DISABLE_GYRO_X, DISABLE_GYRO_Y, DISABLE_GYRO_Z, DMP_EN,
    DMP_INT1_EN, FIFO_EN, GYRO_CYCLE, GYRO_DLPFCFG, GYRO_FCHOICE, GYRO_FS_SEL, I2C_MST_CYCLE,
    I2C_MST_EN, LP_EN, SLEEP,
};
use crate::script;
use crate::script::{Event, Run};
use crate::sensors::{AccelConfig, GyroConfig};
use crate::Bank;

verus! {

/// The value that was last written to a register, if any was.
pub open spec fn written<E>(trace: Seq<Event<E>>, register: Register) -> Option<u8>
    decreases trace.len(),
{
    if trace.len() == 0 {
        None
    } else {
        match trace.last() {
            Event::Access {
                register: accessed,
                access: Access::Write { address, size_bits, data, result: Ok(_) },
            } => if accessed == register {
                Some(data[0])
            } else {
                written(trace.drop_last(), register)
            },
            _ => written(trace.drop_last(), register),
        }
    }
}

/// Event `i` of a trace, if it reads `register`, brings what was last written to
/// it.
pub open spec fn brings_back<E>(trace: Seq<Event<E>>, register: Register, i: int) -> bool {
    match trace[i] {
        Event::Access {
            register: accessed,
            access: Access::Read { address, size_bits, data, result: Ok(_) },
        } => accessed == register ==> match written(trace.take(i), register) {
            Some(value) => data[0] == value,
            None => true,
        },
        _ => true,
    }
}

/// The chip keeps what is written to `register`: every read brings it back.
pub open spec fn keeps<E>(trace: Seq<Event<E>>, register: Register) -> bool {
    forall|i: int| 0 <= i < trace.len() ==> #[trigger] brings_back(trace, register, i)
}

/// Reading writes nothing.
pub(crate) broadcast proof fn lemma_written_read<E>(
    run: Run<E>,
    register: Register,
    size_bits: u32,
    len: nat,
    other: Register,
)
    ensures
        #[trigger] written(run.read(register, size_bits, len).m.trace, other)
            == written(run.m.trace, other),
{
    reveal(Run::read);
    if run.ok() {
        assert(run.read(register, size_bits, len).m.trace.drop_last() =~= run.m.trace);
    }
}

/// What is written, if the bus confirms it, is what was last written to the register.
pub(crate) broadcast proof fn lemma_written_put<E>(
    run: Run<E>,
    register: Register,
    value: u8,
    other: Register,
)
    ensures
        #[trigger] written(run.put(register, value).m.trace, other) == if run.put(
            register,
            value,
        ).ok() && other == register {
            Some(value)
        } else {
            written(run.m.trace, other)
        },
{
    reveal(Run::put);
    if run.ok() {
        assert(run.put(register, value).m.trace.drop_last() =~= run.m.trace);
        assert(seq![value][0] == value);
    }
}

/// Waiting writes nothing.
pub(crate) broadcast proof fn lemma_written_pause<E>(run: Run<E>, pause: Pause, other: Register)
    ensures
        #[trigger] written(run.pause(pause).m.trace, other) == written(
            run.m.trace,
            other,
        ),
{
    reveal(Run::pause);
    if run.ok() {
        assert(run.pause(pause).m.trace.drop_last() =~= run.m.trace);
    }
}

/// Selecting a bank writes to no other register.
pub(crate) broadcast proof fn lemma_written_select<E>(run: Run<E>, bank: Bank, other: Register)
    requires
        other != Register::RegBankSel,
    ensures
        #[trigger] written(run.select(bank).m.trace, other) == written(
            run.m.trace,
            other,
        ),
{
    reveal(Run::select);
    reveal(Run::remember);
    lemma_written_put(run, Register::RegBankSel, bank.select_value(), other);
}

pub(crate) broadcast group group_written {
    lemma_written_read,
    lemma_written_put,
    lemma_written_pause,
    lemma_written_select,
}

/// Before a step that went well all went well, and the step leaves alone what was done
/// before and what the driver remembers.
proof fn lemma_put<E>(run: Run<E>, register: Register, value: u8)
    requires
        run.put(register, value).ok(),
    ensures
        run.ok(),
        run.m.trace.is_prefix_of(run.put(register, value).m.trace),
        run.put(register, value).m.state == run.m.state,
{
    reveal(Run::put);
}

/// [`lemma_put`] for a read.
proof fn lemma_get<E>(run: Run<E>, register: Register)
    requires
        run.get(register).ok(),
    ensures
        run.ok(),
        run.m.trace.is_prefix_of(run.get(register).m.trace),
        run.get(register).m.state == run.m.state,
{
    reveal(Run::read);
}

/// [`lemma_put`] for a pause.
proof fn lemma_pause<E>(run: Run<E>, pause: Pause)
    requires
        run.pause(pause).ok(),
    ensures
        run.ok(),
        run.m.trace.is_prefix_of(run.pause(pause).m.trace),
        run.pause(pause).m.state == run.m.state,
{
    reveal(Run::pause);
}

/// [`lemma_put`] for a selection, after which the driver remembers the bank.
proof fn lemma_select<E>(run: Run<E>, bank: Bank)
    requires
        run.select(bank).ok(),
    ensures
        run.ok(),
        run.m.trace.is_prefix_of(run.select(bank).m.trace),
        run.select(bank).m.state == (script::State { bank: Some(bank), ..run.m.state }),
{
    reveal(Run::select);
    reveal(Run::put);
    reveal(Run::remember);
}

/// A read that went well, on a chip that keeps the register, brings back what was
/// written.
pub(crate) proof fn lemma_brought_back<E>(run: Run<E>, register: Register, trace: Seq<Event<E>>)
    requires
        run.get(register).ok(),
        run.get(register).m.trace.is_prefix_of(trace),
        keeps(trace, register),
        written(run.m.trace, register) is Some,
    ensures
        written(run.m.trace, register) == Some(run.next_byte()),
{
    lemma_get(run, register);
    reveal(Run::read);
    let i = run.m.trace.len() as int;
    let after = run.get(register).m.trace;
    assert(after[i] == trace[i]);
    assert(trace.take(i) =~= run.m.trace);
    assert(brings_back(trace, register, i));
}

/// Selecting a bank that is selected makes no access.
pub proof fn select_is_free<E>(run: Run<E>, bank: Bank)
    requires
        run.state().bank == Some(bank),
    ensures
        run.select(bank) == run,
{
    reveal(Run::select);
}

/// Selecting a bank twice is selecting it once.
pub proof fn select_twice<E>(run: Run<E>, bank: Bank)
    ensures
        run.select(bank).select(bank) == run.select(bank),
{
    reveal(Run::select);
    reveal(Run::put);
    reveal(Run::remember);
}

/// Reading a register and writing it back changes the bits that are named and no
/// others.
pub proof fn modify_keeps_the_rest(value: u8, clear: u8, set: u8)
    ensures
        ((value & !clear) | set) & !(clear | set) == value & !(clear | set),
        ((value & !clear) | set) & set == set,
        ((value & !clear) | set) & (clear & !set) == 0,
{
    assert(((value & !clear) | set) & !(clear | set) == value & !(clear | set)) by (bit_vector);
    assert(((value & !clear) | set) & set == set) by (bit_vector);
    assert(((value & !clear) | set) & (clear & !set) == 0) by (bit_vector);
}

/// The power mode that was set is the one that is read afterwards.
pub proof fn power_mode_reads_back<E>(run: Run<E>, mode: PowerMode)
    requires
        power::status(power::set_mode(run, mode)).0.ok(),
        keeps(power::status(power::set_mode(run, mode)).0.m.trace, Register::PwrMgmt1),
    ensures
        power::status(power::set_mode(run, mode)).1.mode == mode,
{
    broadcast use crate::script::group_steps;
    broadcast use group_written;

    let (clear, set) = power::mode_bits(mode);
    let r0 = run.select(Bank::Bank0);
    let was = r0.next_byte();
    let new = (was & !clear) | set;
    let r1 = r0.get(Register::PwrMgmt1);
    let r2 = r1.put(Register::PwrMgmt1, new);
    let r3 = r2.ms(1);
    let r4 = r3.select(Bank::Bank0);
    let r5 = r4.get(Register::PwrMgmt1);
    let r6 = r5.get(Register::LpConfig);
    lemma_get(r5, Register::LpConfig);
    lemma_get(r4, Register::PwrMgmt1);
    lemma_select(r3, Bank::Bank0);
    lemma_pause(r2, Pause::Ms(1));
    lemma_put(r1, Register::PwrMgmt1, new);
    assert(written(r4.m.trace, Register::PwrMgmt1) == Some(new));
    lemma_brought_back(r4, Register::PwrMgmt1, r6.m.trace);
    match mode {
        PowerMode::Normal => {
            assert(((was & !(SLEEP | LP_EN)) | 0u8) & SLEEP == 0) by (bit_vector);
            assert(((was & !(SLEEP | LP_EN)) | 0u8) & LP_EN == 0) by (bit_vector);
        },
        PowerMode::LowPower => {
            assert(((was & !(SLEEP | LP_EN)) | LP_EN) & SLEEP == 0) by (bit_vector);
            assert(((was & !(SLEEP | LP_EN)) | LP_EN) & LP_EN != 0) by (bit_vector);
        },
        PowerMode::Sleep => {
            assert(((was & !SLEEP) | SLEEP) & SLEEP != 0) by (bit_vector);
        },
    }
}

/// Which axes are off can be told from what `PWR_MGMT_2` holds.
pub proof fn axis_bits_tell_axes(config: SensorPowerConfig)
    ensures
        power::axis_bits(config) & 0x3F == power::axis_bits(config),
        (power::axis_bits(config) & DISABLE_ACCEL_X != 0) == config.disable_accel_x,
        (power::axis_bits(config) & DISABLE_ACCEL_Y != 0) == config.disable_accel_y,
        (power::axis_bits(config) & DISABLE_ACCEL_Z != 0) == config.disable_accel_z,
        (power::axis_bits(config) & DISABLE_GYRO_X != 0) == config.disable_gyro_x,
        (power::axis_bits(config) & DISABLE_GYRO_Y != 0) == config.disable_gyro_y,
        (power::axis_bits(config) & DISABLE_GYRO_Z != 0) == config.disable_gyro_z,
{
    let a = config.disable_accel_x;
    let b = config.disable_accel_y;
    let c = config.disable_accel_z;
    let d = config.disable_gyro_x;
    let e = config.disable_gyro_y;
    let f = config.disable_gyro_z;
    assert({
        let bits = device::spec_flag(DISABLE_ACCEL_X, a) | device::spec_flag(DISABLE_ACCEL_Y, b)
            | device::spec_flag(DISABLE_ACCEL_Z, c) | device::spec_flag(DISABLE_GYRO_X, d)
            | device::spec_flag(DISABLE_GYRO_Y, e) | device::spec_flag(DISABLE_GYRO_Z, f);
        &&& bits & 0x3F == bits
        &&& (bits & DISABLE_ACCEL_X != 0) == a
        &&& (bits & DISABLE_ACCEL_Y != 0) == b
        &&& (bits & DISABLE_ACCEL_Z != 0) == c
        &&& (bits & DISABLE_GYRO_X != 0) == d
        &&& (bits & DISABLE_GYRO_Y != 0) == e
        &&& (bits & DISABLE_GYRO_Z != 0) == f
    }) by (bit_vector);
}

/// The axes that were switched off are those that `PWR_MGMT_2` is read to hold
/// afterwards.
pub proof fn sensor_power_reads_back<E>(run: Run<E>, config: SensorPowerConfig)
    requires
        ({
            let read = power::set_axes(run, config).select(Bank::Bank0).get(Register::PwrMgmt2);
            read.ok() && keeps(read.m.trace, Register::PwrMgmt2)
        }),
    ensures
        power::set_axes(run, config).select(Bank::Bank0).next_byte() & 0x3F == power::axis_bits(
            config,
        ),
{
    broadcast use crate::script::group_steps;
    broadcast use group_written;

    let r0 = run.select(Bank::Bank0);
    let r1 = r0.put(Register::PwrMgmt2, power::axis_bits(config));
    let r2 = r1.select(Bank::Bank0);
    let r3 = r2.get(Register::PwrMgmt2);
    lemma_get(r2, Register::PwrMgmt2);
    lemma_select(r1, Bank::Bank0);
    lemma_put(r0, Register::PwrMgmt2, power::axis_bits(config));
    assert(written(r2.m.trace, Register::PwrMgmt2) == Some(power::axis_bits(config)));
    lemma_brought_back(r2, Register::PwrMgmt2, r3.m.trace);
    axis_bits_tell_axes(config);
}

/// The duty cycles that were set are those that the power status shows afterwards.
pub proof fn cycle_mode_reads_back<E>(run: Run<E>, config: CycleConfig)
    requires
        ({
            let set = run.select(Bank::Bank0).put(Register::LpConfig, power::cycle_bits(config));
            power::status(set).0.ok() && keeps(power::status(set).0.m.trace, Register::LpConfig)
        }),
    ensures
        ({
            let set = run.select(Bank::Bank0).put(Register::LpConfig, power::cycle_bits(config));
            let status = power::status(set).1;
            &&& status.accel_cycle == config.enable_accel_cycle
            &&& status.gyro_cycle == config.enable_gyro_cycle
            &&& status.i2c_master_cycle == config.enable_i2c_master_cycle
        }),
{
    broadcast use crate::script::group_steps;
    broadcast use group_written;

    let bits = power::cycle_bits(config);
    let r0 = run.select(Bank::Bank0);
    let r1 = r0.put(Register::LpConfig, bits);
    let r2 = r1.select(Bank::Bank0);
    let r3 = r2.get(Register::PwrMgmt1);
    let r4 = r3.get(Register::LpConfig);
    lemma_get(r3, Register::LpConfig);
    lemma_get(r2, Register::PwrMgmt1);
    lemma_select(r1, Bank::Bank0);
    lemma_put(r0, Register::LpConfig, bits);
    assert(written(r3.m.trace, Register::LpConfig) == Some(bits));
    lemma_brought_back(r3, Register::LpConfig, r4.m.trace);
    let a = config.enable_accel_cycle;
    let b = config.enable_gyro_cycle;
    let c = config.enable_i2c_master_cycle;
    assert({
        let bits = device::spec_flag(ACCEL_CYCLE, a) | device::spec_flag(GYRO_CYCLE, b)
            | device::spec_flag(I2C_MST_CYCLE, c);
        &&& (bits & ACCEL_CYCLE != 0) == a
        &&& (bits & GYRO_CYCLE != 0) == b
        &&& (bits & I2C_MST_CYCLE != 0) == c
    }) by (bit_vector);
}

/// The accelerometer settings that were written are those that the registers are
/// read to hold afterwards: the filter, the full scale and the use of the filter in
/// `ACCEL_CONFIG`, and the sample rate divider, up to the twelve bits that the chip
/// has for it.
pub proof fn accelerometer_settings_read_back<E>(run: Run<E>, config: AccelConfig)
    requires
        config.sample_rate_div < 4096,
        ({
            let r = accelerometer::configure(run, config).select(Bank::Bank2);
            let read = r.get(Register::AccelConfig).get(Register::AccelSmplrtDiv1).get(
                Register::AccelSmplrtDiv2,
            );
            &&& read.ok()
            &&& keeps(read.m.trace, Register::AccelConfig)
            &&& keeps(read.m.trace, Register::AccelSmplrtDiv1)
            &&& keeps(read.m.trace, Register::AccelSmplrtDiv2)
        }),
    ensures
        ({
            let r0 = accelerometer::configure(run, config).select(Bank::Bank2);
            let r1 = r0.get(Register::AccelConfig);
            let r2 = r1.get(Register::AccelSmplrtDiv1);
            &&& r0.next_byte() & 0x3F == accelerometer::config_bits(config)
            &&& 256 * (r1.next_byte() & 0x0F) + r2.next_byte() == config.sample_rate_div
        }),
{
    broadcast use crate::script::group_steps;
    broadcast use group_written;

    let high = ((config.sample_rate_div / 256) % 16) as u8;
    let low = (config.sample_rate_div % 256) as u8;
    let bits = accelerometer::config_bits(config);
    let clear = ACCEL_FS_SEL | ACCEL_DLPFCFG | ACCEL_FCHOICE;
    let b = run.select(Bank::Bank0).modify(Register::LpConfig, ACCEL_CYCLE, 0).select(Bank::Bank2);
    let was = b.next_byte();
    let new = (was & !clear) | bits;
    let c = b.get(Register::AccelConfig).put(Register::AccelConfig, new);
    let d = c.put(Register::AccelSmplrtDiv1, high);
    let e = d.put(Register::AccelSmplrtDiv2, low);
    let f = e.remember(script::State { accel_config: config, ..e.state() });
    let g = f.select(Bank::Bank0);
    let r0 = g.select(Bank::Bank2);
    let r1 = r0.get(Register::AccelConfig);
    let r2 = r1.get(Register::AccelSmplrtDiv1);
    let r3 = r2.get(Register::AccelSmplrtDiv2);
    lemma_get(r2, Register::AccelSmplrtDiv2);
    lemma_get(r1, Register::AccelSmplrtDiv1);
    lemma_get(r0, Register::AccelConfig);
    lemma_select(g, Bank::Bank2);
    lemma_select(f, Bank::Bank0);
    assert(e.ok() && f.m.trace == e.m.trace) by {
        reveal(Run::remember);
    }
    lemma_put(d, Register::AccelSmplrtDiv2, low);
    lemma_put(c, Register::AccelSmplrtDiv1, high);
    lemma_put(b.get(Register::AccelConfig), Register::AccelConfig, new);
    assert(written(r0.m.trace, Register::AccelConfig) == Some(new));
    assert(written(r1.m.trace, Register::AccelSmplrtDiv1) == Some(high));
    assert(written(r2.m.trace, Register::AccelSmplrtDiv2) == Some(low));
    lemma_brought_back(r0, Register::AccelConfig, r3.m.trace);
    lemma_brought_back(r1, Register::AccelSmplrtDiv1, r3.m.trace);
    lemma_brought_back(r2, Register::AccelSmplrtDiv2, r3.m.trace);
    assert(bits <= 0x3F);
    assert(((was & !(ACCEL_FS_SEL | ACCEL_DLPFCFG | ACCEL_FCHOICE)) | bits) & 0x3F == bits)
        by (bit_vector)
        requires
            bits <= 0x3F,
    ;
    assert(high & 0x0F == high) by (bit_vector)
        requires
            high < 16,
    ;
}

/// The gyroscope settings that were written are those that the registers are read to
/// hold afterwards.
pub proof fn gyroscope_settings_read_back<E>(run: Run<E>, config: GyroConfig)
    requires
        ({
            let r = gyroscope::configure(run, config).select(Bank::Bank2);
            let read = r.get(Register::GyroConfig1).get(Register::GyroSmplrtDiv);
            &&& read.ok()
            &&& keeps(read.m.trace, Register::GyroConfig1)
            &&& keeps(read.m.trace, Register::GyroSmplrtDiv)
        }),
    ensures
        ({
            let r0 = gyroscope::configure(run, config).select(Bank::Bank2);
            let r1 = r0.get(Register::GyroConfig1);
            &&& r0.next_byte() & 0x3F == gyroscope::config_bits(config)
            &&& r1.next_byte() == config.sample_rate_div
        }),
{
    broadcast use crate::script::group_steps;
    broadcast use group_written;

    let bits = gyroscope::config_bits(config);
    let clear = GYRO_FS_SEL | GYRO_DLPFCFG | GYRO_FCHOICE;
    let b = run.select(Bank::Bank0).modify(Register::LpConfig, GYRO_CYCLE, 0).select(Bank::Bank2);
    let was = b.next_byte();
    let new = (was & !clear) | bits;
    let c = b.get(Register::GyroConfig1).put(Register::GyroConfig1, new);
    let d = c.put(Register::GyroSmplrtDiv, config.sample_rate_div);
    let e = d.remember(script::State { gyro_config: config, ..d.state() });
    let f = e.select(Bank::Bank0);
    let r0 = f.select(Bank::Bank2);
    let r1 = r0.get(Register::GyroConfig1);
    let r2 = r1.get(Register::GyroSmplrtDiv);
    lemma_get(r1, Register::GyroSmplrtDiv);
    lemma_get(r0, Register::GyroConfig1);
    lemma_select(f, Bank::Bank2);
    lemma_select(e, Bank::Bank0);
    assert(d.ok() && e.m.trace == d.m.trace) by {
        reveal(Run::remember);
    }
    lemma_put(c, Register::GyroSmplrtDiv, config.sample_rate_div);
    lemma_put(b.get(Register::GyroConfig1), Register::GyroConfig1, new);
    assert(written(r0.m.trace, Register::GyroConfig1) == Some(new));
    assert(written(r1.m.trace, Register::GyroSmplrtDiv) == Some(config.sample_rate_div));
    lemma_brought_back(r0, Register::GyroConfig1, r2.m.trace);
    lemma_brought_back(r1, Register::GyroSmplrtDiv, r2.m.trace);
    assert(bits <= 0x3F);
    assert(((was & !(GYRO_FS_SEL | GYRO_DLPFCFG | GYRO_FCHOICE)) | bits) & 0x3F == bits)
        by (bit_vector)
        requires
            bits <= 0x3F,
    ;
}

/// After low power the accelerometer has the settings that the driver remembers, and
/// the duty cycles are off.
pub proof fn low_power_restores_settings<E>(run: Run<E>)
    requires
        power::leave_low_power(run).ok(),
    ensures
        written(power::leave_low_power(run).m.trace, Register::AccelConfig) == Some(
            accelerometer::config_bits(run.state().accel_config),
        ),
        written(power::leave_low_power(run).m.trace, Register::LpConfig) == Some(0u8),
{
    broadcast use crate::script::group_steps;
    broadcast use group_written;

    let a = run.select(Bank::Bank0);
    let was = a.next_byte();
    let value = (was & !(LP_EN | SLEEP)) | 0;
    let b = a.get(Register::PwrMgmt1);
    let c = b.put(Register::PwrMgmt1, value);
    let d = c.put(Register::LpConfig, 0);
    let e = d.select(Bank::Bank2);
    let bits = accelerometer::config_bits(e.state().accel_config);
    let f = e.put(Register::AccelConfig, bits);
    let g = f.put(Register::AccelConfig2, 0);
    lemma_select(g, Bank::Bank0);
    lemma_put(f, Register::AccelConfig2, 0);
    lemma_put(e, Register::AccelConfig, bits);
    lemma_select(d, Bank::Bank2);
    lemma_put(c, Register::LpConfig, 0);
    lemma_put(b, Register::PwrMgmt1, value);
    lemma_get(a, Register::PwrMgmt1);
    lemma_select(run, Bank::Bank0);
}

/// The FIFO goes on and off with the motion processor, and the I2C master goes on
/// with it only if the magnetometer was set up.
pub proof fn fifo_follows_processor<E>(run: Run<E>, on: bool, magnetometer: bool)
    requires
        dmp::enable(run, on, magnetometer).ok(),
    ensures
        written(dmp::enable(run, on, magnetometer).m.trace, Register::UserCtrl) matches Some(value)
            && (value & DMP_EN != 0) == on && (value & FIFO_EN != 0) == on && (value & I2C_MST_EN
            != 0) == (on && magnetometer),
{
    broadcast use crate::script::group_steps;
    broadcast use group_written;

    let selected = run.select(Bank::Bank0);
    let powered = if on {
        dmp::full_power(selected)
    } else {
        selected
    };
    let was = powered.next_byte();
    let master = on && magnetometer;
    let value = (was & !(DMP_EN | FIFO_EN | I2C_MST_EN)) | (device::spec_flag(DMP_EN | FIFO_EN, on)
        | device::spec_flag(I2C_MST_EN, master));
    let read = powered.get(Register::UserCtrl);
    let set = read.put(Register::UserCtrl, value);
    let routing = device::spec_flag(dmp::MOTION_AXES, on);
    let routed = set.put(Register::FifoEn2, routing);
    if on {
        let cycles = (routed.next_byte() & !I2C_MST_CYCLE) | I2C_MST_CYCLE;
        let a = routed.get(Register::LpConfig);
        let b = a.put(Register::LpConfig, cycles);
        let interrupts = (b.next_byte() & !DMP_INT1_EN) | DMP_INT1_EN;
        let c = b.get(Register::IntEnable);
        lemma_put(c, Register::IntEnable, interrupts);
        lemma_get(b, Register::IntEnable);
        lemma_put(a, Register::LpConfig, cycles);
        lemma_get(routed, Register::LpConfig);
    } else {
        let interrupts = (routed.next_byte() & !DMP_INT1_EN) | 0;
        let c = routed.get(Register::IntEnable);
        lemma_put(c, Register::IntEnable, interrupts);
        lemma_get(routed, Register::IntEnable);
    }
    lemma_put(set, Register::FifoEn2, routing);
    lemma_put(read, Register::UserCtrl, value);
    assert({
        let value = (was & !(DMP_EN | FIFO_EN | I2C_MST_EN)) | (device::spec_flag(
            DMP_EN | FIFO_EN,
            on,
        ) | device::spec_flag(I2C_MST_EN, master));
        &&& (value & DMP_EN != 0) == on
        &&& (value & FIFO_EN != 0) == on
        &&& (value & I2C_MST_EN != 0) == master
    }) by (bit_vector);
}

/// The memory of the motion processor, and where in it the next byte goes.
pub struct Memory {
    /// What is stored, by address.
    pub cells: Map<int, u8>,
    /// The memory bank, the high byte of an address.
    pub bank: u8,
    /// The place in the bank, the low byte of an address.
    pub offset: u8,
    /// Whether the place goes on in the next bank at the end of one, instead of at the
    /// beginning of the same.
    pub carries: bool,
}

impl Memory {
    /// Where the next byte goes, or comes from.
    pub open spec fn cursor(self) -> int {
        256 * self.bank + self.offset
    }

    /// The place moves on.
    pub open spec fn advanced(self) -> Self {
        Memory {
            offset: ((self.offset + 1) % 256) as u8,
            bank: if self.carries && self.offset == 255 {
                ((self.bank + 1) % 256) as u8
            } else {
                self.bank
            },
            ..self
        }
    }

    /// From `address` on, `len` bytes lie one behind the other.
    pub open spec fn runs(self, address: int, len: nat) -> bool {
        address + len <= 0x1_0000 && (self.carries || address % 256 + len <= 256)
    }

    /// The memory after an event: writes to the two address registers set the place,
    /// and each byte that is written or read moves it on.
    pub open spec fn after<E>(self, event: Event<E>) -> Self {
        match event {
            Event::Access {
                register,
                access: Access::Write { address, size_bits, data, result: Ok(_) },
            } => if register == Register::MemBankSel {
                Memory { bank: data[0], ..self }
            } else if register == Register::MemStartAddr {
                Memory { offset: data[0], ..self }
            } else if register == Register::MemRW {
                (Memory { cells: self.cells.insert(self.cursor(), data[0]), ..self }).advanced()
            } else {
                self
            },
            Event::Access {
                register,
                access: Access::Read { address, size_bits, data, result: Ok(_) },
            } => if register == Register::MemRW {
                self.advanced()
            } else {
                self
            },
            _ => self,
        }
    }

    /// The memory after all events of a trace.
    pub open spec fn after_all<E>(self, trace: Seq<Event<E>>) -> Self
        decreases trace.len(),
    {
        if trace.len() == 0 {
            self
        } else {
            self.after_all(trace.drop_last()).after(trace.last())
        }
    }

    /// Event `i` of a trace, if it reads a byte of the memory, brings the one that is
    /// stored.
    pub open spec fn brings_byte<E>(self, trace: Seq<Event<E>>, i: int) -> bool {
        match trace[i] {
            Event::Access {
                register: Register::MemRW,
                access: Access::Read { address, size_bits, data, result: Ok(_) },
            } => {
                let memory = self.after_all(trace.take(i));
                data[0] == memory.cells[memory.cursor()]
            },
            _ => true,
        }
    }

    /// The memory keeps what is written to it: every read brings what is stored.
    pub open spec fn keeps<E>(self, trace: Seq<Event<E>>) -> bool {
        forall|i: int| 0 <= i < trace.len() ==> #[trigger] self.brings_byte(trace, i)
    }

    /// The same memory with `data` stored from `address` on.
    pub open spec fn holds(self, before: Memory, address: int, data: Seq<u8>) -> bool {
        forall|a: int|
            #![trigger self.cells[a]]
            self.cells[a] == if address <= a < address + data.len() {
                data[a - address]
            } else {
                before.cells[a]
            }
    }
}

pub(crate) proof fn lemma_memory_put<E>(memory: Memory, run: Run<E>, register: Register, value: u8)
    requires
        run.put(register, value).ok(),
    ensures
        run.ok(),
        ({
            let now = memory.after_all(run.m.trace);
            memory.after_all(run.put(register, value).m.trace) == if register
                == Register::MemBankSel {
                Memory { bank: value, ..now }
            } else if register == Register::MemStartAddr {
                Memory { offset: value, ..now }
            } else if register == Register::MemRW {
                (Memory { cells: now.cells.insert(now.cursor(), value), ..now }).advanced()
            } else {
                now
            }
        }),
{
    reveal(Run::put);
    let after = run.put(register, value).m.trace;
    assert(after.drop_last() =~= run.m.trace);
    assert(seq![value][0] == value);
}

proof fn lemma_memory_select<E>(memory: Memory, run: Run<E>, bank: Bank)
    requires
        run.select(bank).ok(),
    ensures
        run.ok(),
        memory.after_all(run.select(bank).m.trace) == memory.after_all(run.m.trace),
{
    reveal(Run::select);
    reveal(Run::put);
    reveal(Run::remember);
    let after = run.select(bank).m.trace;
    if run.m.state.bank != Some(bank) {
        assert(after.drop_last() =~= run.m.trace);
    }
}

/// Bytes that are pushed come to lie one behind the other, from the current place
/// on.
pub(crate) proof fn lemma_push_bytes<E>(memory: Memory, run: Run<E>, data: Seq<u8>)
    requires
        dmp::push_bytes(run, data).ok(),
        ({
            let before = memory.after_all(run.m.trace);
            before.runs(before.cursor(), data.len())
        }),
    ensures
        run.ok(),
        ({
            let before = memory.after_all(run.m.trace);
            let after = memory.after_all(dmp::push_bytes(run, data).m.trace);
            &&& after.carries == before.carries
            &&& after.holds(before, before.cursor(), data)
        }),
    decreases data.len(),
{
    broadcast use crate::script::group_steps;
    broadcast use group_written;

    reveal_with_fuel(dmp::push_bytes, 2);
    if data.len() > 0 && run.ok() {
        let before = memory.after_all(run.m.trace);
        let then = run.put(Register::MemRW, data[0]);
        if then.failed is Some {
            assert(dmp::push_bytes(then, data.skip(1)) == then);
        }
        lemma_memory_put(memory, run, Register::MemRW, data[0]);
        let next = memory.after_all(then.m.trace);
        if data.len() > 1 {
            assert(next.cursor() == before.cursor() + 1);
            lemma_push_bytes(memory, then, data.skip(1));
        } else {
            assert(data.skip(1).len() == 0);
        }
        let after = memory.after_all(dmp::push_bytes(run, data).m.trace);
        assert(dmp::push_bytes(run, data) == dmp::push_bytes(then, data.skip(1)));
        assert forall|a: int| #![trigger after.cells[a]]
            after.cells[a] == if before.cursor() <= a < before.cursor() + data.len() {
                data[a - before.cursor()]
            } else {
                before.cells[a]
            } by {
            if data.len() > 1 {
                assert(next.cursor() == before.cursor() + 1);
                let rest = data.skip(1);
                assert(after.cells[a] == if next.cursor() <= a < next.cursor() + rest.len() {
                    rest[a - next.cursor()]
                } else {
                    next.cells[a]
                });
            }
        }
    }
}

/// Data that starts at `address` can be written without a chunk that runs over the
/// end of a memory bank.
pub open spec fn fits(address: int, len: nat) -> bool {
    address % 16 == 0 || address % 256 + len <= 256
}

/// How the place moves on never changes.
pub(crate) proof fn lemma_carries<E>(memory: Memory, trace: Seq<Event<E>>)
    ensures
        memory.after_all(trace).carries == memory.carries,
    decreases trace.len(),
{
    if trace.len() > 0 {
        lemma_carries(memory, trace.drop_last());
    }
}

proof fn lemma_write_chunks<E>(memory: Memory, run: Run<E>, address: int, data: Seq<u8>)
    requires
        dmp::write_chunks(run, address, data).ok(),
        0 <= address,
        address + data.len() <= 0x1_0000,
        memory.carries || fits(address, data.len()),
    ensures
        run.ok(),
        ({
            let before = memory.after_all(run.m.trace);
            let after = memory.after_all(dmp::write_chunks(run, address, data).m.trace);
            after.holds(before, address, data)
        }),
    decreases data.len(),
{
    broadcast use crate::script::group_steps;
    broadcast use group_written;

    reveal_with_fuel(dmp::write_chunks, 2);
    if data.len() > 0 && run.ok() {
        let n = if data.len() < dmp::CHUNK {
            data.len() as int
        } else {
            dmp::CHUNK as int
        };
        let bank = (address / 256) as u8;
        let offset = (address % 256) as u8;
        let selected = run.put(Register::MemBankSel, bank);
        let placed = selected.put(Register::MemStartAddr, offset);
        let pushed = dmp::push_bytes(placed, data.take(n));
        if pushed.failed is Some {
            assert(dmp::write_chunks(pushed, address + n, data.skip(n)) == pushed);
        }
        if placed.failed is Some {
            assert(dmp::push_bytes(placed, data.take(n)) == placed);
        }
        lemma_memory_put(memory, selected, Register::MemStartAddr, offset);
        lemma_memory_put(memory, run, Register::MemBankSel, bank);
        lemma_carries(memory, placed.m.trace);
        lemma_push_bytes(memory, placed, data.take(n));
        assert(memory.carries || fits(address + n, data.skip(n).len()));
        lemma_write_chunks(memory, pushed, address + n, data.skip(n));
        let before = memory.after_all(run.m.trace);
        let at = memory.after_all(placed.m.trace);
        let middle = memory.after_all(pushed.m.trace);
        let after = memory.after_all(dmp::write_chunks(run, address, data).m.trace);
        assert(at.cursor() == address);
        assert(at.cells == before.cells);
        assert forall|a: int| #![trigger after.cells[a]]
            after.cells[a] == if address <= a < address + data.len() {
                data[a - address]
            } else {
                before.cells[a]
            } by {
            assert(middle.cells[a] == if address <= a < address + n {
                data.take(n)[a - address]
            } else {
                before.cells[a]
            });
        }
    }
}

/// Reading byte by byte brings what is stored, from the current place on.
proof fn lemma_fill<E>(
    memory: Memory,
    run: Run<E>,
    buffer: Seq<u8>,
    from: int,
    to: int,
    trace: Seq<Event<E>>,
)
    requires
        script::fill(run, Register::MemRW, buffer, from, to).0.ok(),
        script::fill(run, Register::MemRW, buffer, from, to).0.m.trace.is_prefix_of(trace),
        memory.keeps(trace),
        0 <= from <= to <= buffer.len(),
        ({
            let now = memory.after_all(run.m.trace);
            now.runs(now.cursor(), (to - from) as nat)
        }),
    ensures
        ({
            let (read, bytes) = script::fill(run, Register::MemRW, buffer, from, to);
            let now = memory.after_all(run.m.trace);
            &&& run.m.trace.is_prefix_of(read.m.trace)
            &&& bytes.len() == buffer.len()
            &&& forall|i: int|
                #![trigger bytes[i]]
                0 <= i < buffer.len() ==> bytes[i] == if from <= i < to {
                    now.cells[now.cursor() + (i - from)]
                } else {
                    buffer[i]
                }
        }),
    decreases to - from,
{
    broadcast use crate::script::group_steps;
    broadcast use group_written;

    reveal_with_fuel(script::fill, 2);
    if from < to && run.ok() {
        let now = memory.after_all(run.m.trace);
        let value = run.next_byte();
        let then = run.get(Register::MemRW);
        if then.failed is Some {
            assert(script::fill(then, Register::MemRW, buffer, from + 1, to).0 == then);
        }
        lemma_get(run, Register::MemRW);
        let stored = buffer.update(from, value);
        let next = memory.after_all(then.m.trace);
        assert(next == now.advanced()) by {
            reveal(Run::read);
            assert(then.m.trace.drop_last() =~= run.m.trace);
        }
        if from + 1 < to {
            assert(next.cursor() == now.cursor() + 1);
            lemma_fill(memory, then, stored, from + 1, to, trace);
        }
        let read = script::fill(run, Register::MemRW, buffer, from, to).0;
        assert(value == now.cells[now.cursor()]) by {
            reveal(Run::read);
            let i = run.m.trace.len() as int;
            assert(then.m.trace.is_prefix_of(read.m.trace));
            assert(then.m.trace[i] == read.m.trace[i]);
            assert(read.m.trace[i] == trace[i]);
            assert(trace.take(i) =~= run.m.trace);
            assert(memory.brings_byte(trace, i));
        }
        let bytes = script::fill(run, Register::MemRW, buffer, from, to).1;
        assert forall|i: int|
            #![trigger bytes[i]]
            0 <= i < buffer.len() implies bytes[i] == if from <= i < to {
            now.cells[now.cursor() + (i - from)]
        } else {
            buffer[i]
        } by {
            if from + 1 < to {
                assert(next.cursor() == now.cursor() + 1);
                assert(bytes[i] == if from + 1 <= i < to {
                    next.cells[next.cursor() + (i - (from + 1))]
                } else {
                    stored[i]
                });
            }
        }
    }
}

/// Only a write to `MEM_R_W` changes what is stored.
pub(crate) broadcast proof fn lemma_cells_put<E>(
    memory: Memory,
    run: Run<E>,
    register: Register,
    value: u8,
)
    requires
        register != Register::MemRW,
    ensures
        (#[trigger] memory.after_all(run.put(register, value).m.trace)).cells == memory.after_all(
            run.m.trace,
        ).cells,
{
    reveal(Run::put);
    if run.ok() {
        assert(run.put(register, value).m.trace.drop_last() =~= run.m.trace);
    }
}

/// Reading does not change what is stored.
pub(crate) broadcast proof fn lemma_cells_read<E>(
    memory: Memory,
    run: Run<E>,
    register: Register,
    size_bits: u32,
    len: nat,
)
    ensures
        (#[trigger] memory.after_all(run.read(register, size_bits, len).m.trace)).cells
            == memory.after_all(run.m.trace).cells,
{
    reveal(Run::read);
    if run.ok() {
        assert(run.read(register, size_bits, len).m.trace.drop_last() =~= run.m.trace);
    }
}

/// Waiting does not change what is stored.
pub(crate) broadcast proof fn lemma_cells_pause<E>(memory: Memory, run: Run<E>, pause: Pause)
    ensures
        (#[trigger] memory.after_all(run.pause(pause).m.trace)).cells == memory.after_all(
            run.m.trace,
        ).cells,
{
    reveal(Run::pause);
    if run.ok() {
        assert(run.pause(pause).m.trace.drop_last() =~= run.m.trace);
    }
}

/// Selecting a bank does not change what is stored.
pub(crate) broadcast proof fn lemma_cells_select<E>(memory: Memory, run: Run<E>, bank: Bank)
    ensures
        (#[trigger] memory.after_all(run.select(bank).m.trace)).cells == memory.after_all(
            run.m.trace,
        ).cells,
{
    reveal(Run::select);
    reveal(Run::remember);
    lemma_cells_put(memory, run, Register::RegBankSel, bank.select_value());
}

pub(crate) broadcast group group_cells {
    lemma_cells_put,
    lemma_cells_read,
    lemma_cells_pause,
    lemma_cells_select,
}

/// Reading the memory does not change what is stored.
pub(crate) proof fn lemma_cells_fill<E>(
    memory: Memory,
    run: Run<E>,
    register: Register,
    buffer: Seq<u8>,
    from: int,
    to: int,
)
    ensures
        memory.after_all(script::fill(run, register, buffer, from, to).0.m.trace).cells
            == memory.after_all(run.m.trace).cells,
    decreases to - from,
{
    broadcast use group_cells;

    if run.ok() && from < to {
        let then = run.get(register);
        let stored = if then.ok() {
            buffer.update(from, run.next_byte())
        } else {
            buffer
        };
        lemma_cells_fill(memory, then, register, stored, from + 1, to);
    }
}

/// Reading the memory does not change what is stored.
pub(crate) proof fn lemma_cells_read_memory<E>(
    memory: Memory,
    run: Run<E>,
    address: u16,
    buffer: Seq<u8>,
)
    ensures
        memory.after_all(dmp::read_memory(run, address, buffer).0.m.trace).cells
            == memory.after_all(run.m.trace).cells,
{
    broadcast use group_cells;

    let placed = run.select(Bank::Bank0).put(Register::MemBankSel, (address / 256) as u8).put(
        Register::MemStartAddr,
        (address % 256) as u8,
    );
    lemma_cells_fill(memory, placed, Register::MemRW, buffer, 0, buffer.len() as int);
}

/// What is written to the processor's memory comes to lie at the address that it
/// was written to, byte by byte, and nothing else changes. Where the place does not go
/// on in the next bank, data with a chunk that runs over the end of a bank is left out.
pub proof fn memory_takes_what_is_written<E>(
    memory: Memory,
    run: Run<E>,
    address: u16,
    data: Seq<u8>,
)
    requires
        dmp::write_memory(run, address, data).ok(),
        address + data.len() <= 0x1_0000,
        memory.carries || fits(address as int, data.len()),
    ensures
        memory.after_all(dmp::write_memory(run, address, data).m.trace).holds(
            memory.after_all(run.m.trace),
            address as int,
            data,
        ),
{
    if data.len() > 0 {
        let selected = run.select(Bank::Bank0);
        lemma_write_chunks(memory, selected, address as int, data);
        lemma_memory_select(memory, run, Bank::Bank0);
    }
}

/// What is read from the processor's memory is what is stored there, as far as it
/// lies one byte behind the other.
pub proof fn memory_brings_what_is_stored<E>(
    memory: Memory,
    run: Run<E>,
    address: u16,
    buffer: Seq<u8>,
)
    requires
        dmp::read_memory(run, address, buffer).0.ok(),
        memory.keeps(dmp::read_memory(run, address, buffer).0.m.trace),
        memory.runs(address as int, buffer.len()),
    ensures
        ({
            let bytes = dmp::read_memory(run, address, buffer).1;
            &&& bytes.len() == buffer.len()
            &&& forall|i: int|
                0 <= i < buffer.len() ==> #[trigger] bytes[i] == memory.after_all(
                    run.m.trace,
                ).cells[address + i]
        }),
{
    broadcast use crate::script::group_steps;
    broadcast use group_written;

    let bank = (address / 256) as u8;
    let offset = (address % 256) as u8;
    let selected = run.select(Bank::Bank0);
    let banked = selected.put(Register::MemBankSel, bank);
    let placed = banked.put(Register::MemStartAddr, offset);
    let (read, bytes) = dmp::read_memory(run, address, buffer);
    if placed.failed is Some {
        assert(script::fill(placed, Register::MemRW, buffer, 0, buffer.len() as int).0 == placed);
    }
    lemma_memory_put(memory, banked, Register::MemStartAddr, offset);
    lemma_memory_put(memory, selected, Register::MemBankSel, bank);
    lemma_memory_select(memory, run, Bank::Bank0);
    lemma_carries(memory, placed.m.trace);
    lemma_fill(memory, placed, buffer, 0, buffer.len() as int, read.m.trace);
}

/// What is written to the processor's memory is what is read back from it, as far as
/// it lies one byte behind the other.
pub proof fn memory_reads_back<E>(
    memory: Memory,
    run: Run<E>,
    address: u16,
    data: Seq<u8>,
    buffer: Seq<u8>,
)
    requires
        buffer.len() == data.len(),
        memory.runs(address as int, data.len()),
        ({
            let read = dmp::read_memory(dmp::write_memory(run, address, data), address, buffer).0;
            read.ok() && memory.keeps(read.m.trace)
        }),
    ensures
        dmp::read_memory(dmp::write_memory(run, address, data), address, buffer).1 == data,
{
    let set = dmp::write_memory(run, address, data);
    lemma_read_ok(set, address, buffer);
    memory_takes_what_is_written(memory, run, address, data);
    memory_brings_what_is_stored(memory, set, address, buffer);
    assert(dmp::read_memory(set, address, buffer).1 =~= data);
}

proof fn lemma_read_ok<E>(run: Run<E>, address: u16, buffer: Seq<u8>)
    requires
        dmp::read_memory(run, address, buffer).0.ok(),
    ensures
        run.ok(),
{
    broadcast use crate::script::group_steps;
    broadcast use group_written;

}

/// The watermark that was set is the one that is read afterwards.
pub proof fn watermark_reads_back<E>(memory: Memory, run: Run<E>, watermark: u16)
    requires
        ({
            let set = dmp::write_memory(run, dmp::FIFO_WATERMARK, dmp::high_first(watermark));
            let read = dmp::read_memory(set, dmp::FIFO_WATERMARK, seq![0, 0]).0;
            read.ok() && memory.keeps(read.m.trace)
        }),
    ensures
        ({
            let set = dmp::write_memory(run, dmp::FIFO_WATERMARK, dmp::high_first(watermark));
            dmp::from_high_first(dmp::read_memory(set, dmp::FIFO_WATERMARK, seq![0, 0]).1)
                == watermark
        }),
{
    dmp::high_first_round_trip(watermark);
    memory_reads_back(
        memory,
        run,
        dmp::FIFO_WATERMARK,
        dmp::high_first(watermark),
        seq![0u8, 0u8],
    );
}

/// Firmware comes to lie at the beginning of the processor's memory, byte by byte,
/// and nothing else in the memory changes.
pub proof fn firmware_lands<E>(memory: Memory, run: Run<E>, firmware: Seq<u8>)
    requires
        firmware.len() <= u16::MAX,
        dmp::load_firmware(run, firmware).ok(),
    ensures
        memory.after_all(dmp::load_firmware(run, firmware).m.trace).holds(
            memory.after_all(run.m.trace),
            0,
            firmware,
        ),
{
    let selected = run.select(Bank::Bank0);
    lemma_finish_firmware(memory, dmp::write_chunks(selected, 0, firmware));
    lemma_write_chunks(memory, selected, 0, firmware);
    lemma_memory_select(memory, run, Bank::Bank0);
}

proof fn lemma_memory_pause<E>(memory: Memory, run: Run<E>, pause: Pause)
    requires
        run.pause(pause).ok(),
    ensures
        run.ok(),
        memory.after_all(run.pause(pause).m.trace) == memory.after_all(run.m.trace),
{
    reveal(Run::pause);
    let after = run.pause(pause).m.trace;
    assert(after.drop_last() =~= run.m.trace);
}

proof fn lemma_write_firmware<E>(memory: Memory, run: Run<E>, address: int, data: Seq<u8>)
    requires
        nonblocking::write_firmware(run, address, data).ok(),
        0 <= address,
        address % 16 == 0,
        address + data.len() <= 0x1_0000,
    ensures
        run.ok(),
        ({
            let before = memory.after_all(run.m.trace);
            let after = memory.after_all(nonblocking::write_firmware(run, address, data).m.trace);
            after.holds(before, address, data)
        }),
    decreases data.len(),
{
    broadcast use crate::script::group_steps;
    broadcast use group_written;

    reveal_with_fuel(nonblocking::write_firmware, 2);
    if data.len() > 0 && run.ok() {
        let n = if data.len() < dmp::CHUNK {
            data.len() as int
        } else {
            dmp::CHUNK as int
        };
        let bank = (address / 256) as u8;
        let offset = (address % 256) as u8;
        let selected = run.put(Register::MemBankSel, bank);
        let placed = selected.put(Register::MemStartAddr, offset);
        let pushed = dmp::push_bytes(placed, data.take(n));
        let paused = if (address + n) % 256 == 0 {
            pushed.pause(Pause::Us(100))
        } else {
            pushed
        };
        if paused.failed is Some {
            assert(nonblocking::write_firmware(paused, address + n, data.skip(n)) == paused);
        }
        if (address + n) % 256 == 0 {
            lemma_memory_pause(memory, pushed, Pause::Us(100));
        }
        if placed.failed is Some {
            assert(dmp::push_bytes(placed, data.take(n)) == placed);
        }
        lemma_memory_put(memory, selected, Register::MemStartAddr, offset);
        lemma_memory_put(memory, run, Register::MemBankSel, bank);
        lemma_push_bytes(memory, placed, data.take(n));
        if data.skip(n).len() > 0 {
            lemma_write_firmware(memory, paused, address + n, data.skip(n));
        }
        let before = memory.after_all(run.m.trace);
        let at = memory.after_all(placed.m.trace);
        let middle = memory.after_all(paused.m.trace);
        let after = memory.after_all(nonblocking::write_firmware(run, address, data).m.trace);
        assert(at.cursor() == address);
        assert(at.cells == before.cells);
        assert forall|a: int| #![trigger after.cells[a]]
            after.cells[a] == if address <= a < address + data.len() {
                data[a - address]
            } else {
                before.cells[a]
            } by {
            assert(middle.cells[a] == if address <= a < address + n {
                data.take(n)[a - address]
            } else {
                before.cells[a]
            });
        }
    }
}

/// With pauses between the chunks too, firmware comes to lie at the beginning of the
/// processor's memory, byte by byte, and nothing else in the memory changes.
pub proof fn nonblocking_firmware_lands<E>(memory: Memory, run: Run<E>, firmware: Seq<u8>)
    requires
        firmware.len() <= u16::MAX,
        nonblocking::load_firmware(run, firmware).ok(),
    ensures
        memory.after_all(nonblocking::load_firmware(run, firmware).m.trace).holds(
            memory.after_all(run.m.trace),
            0,
            firmware,
        ),
{
    let selected = run.select(Bank::Bank0);
    lemma_finish_firmware(memory, nonblocking::write_firmware(selected, 0, firmware));
    lemma_write_firmware(memory, selected, 0, firmware);
    lemma_memory_select(memory, run, Bank::Bank0);
}

/// What ends the loading of firmware leaves the memory alone.
proof fn lemma_finish_firmware<E>(memory: Memory, run: Run<E>)
    requires
        dmp::finish_firmware(run).ok(),
    ensures
        run.ok(),
        memory.after_all(dmp::finish_firmware(run).m.trace) == memory.after_all(run.m.trace),
{
    broadcast use crate::script::group_steps;
    broadcast use group_written;

    let a = run.select(Bank::Bank2);
    let b = a.put(Register::PrgmStartAddrH, 0x10);
    let c = b.put(Register::PrgmStartAddrL, 0x00);
    let d = c.select(Bank::Bank0);
    let e = d.put(Register::HwFixDisable, 0x48);
    lemma_memory_put(memory, e, Register::SingleFifoPrioritySel, 0xE4);
    lemma_memory_put(memory, d, Register::HwFixDisable, 0x48);
    lemma_memory_select(memory, c, Bank::Bank0);
    lemma_memory_put(memory, b, Register::PrgmStartAddrL, 0x00);
    lemma_memory_put(memory, a, Register::PrgmStartAddrH, 0x10);
    lemma_memory_select(memory, run, Bank::Bank2);
}

} // verus!
