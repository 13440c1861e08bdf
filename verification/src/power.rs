//! Power: sleep, low power, clocks and what is switched off.

use vstd::prelude::*;

use crate::accelerometer;
use crate::device::{flag, Icm20948Driver};
use crate::interface::{Delay, Interface};
use crate::interrupt;
use crate::registers::{
    Register, ACCEL_CYCLE, ACCEL_INTEL_EN, ACCEL_INTEL_MODE_INT, CLKSEL, DISABLE_ACCEL_X,
    DISABLE_ACCEL_Y, DISABLE_ACCEL_Z, DISABLE_GYRO_X, DISABLE_GYRO_Y, DISABLE_GYRO_Z, GYRO_CYCLE,
    I2C_MST_CYCLE, LP_EN, SLEEP, TEMP_DIS, WOM_INT_EN,
};
use crate::script;
use crate::script::Run;
use crate::{Bank, Error};

verus! {

broadcast use crate::script::group_steps;

/// How much of the chip runs.
#[derive(Debug, Clone, Copy, PartialEq, Eq, Structural)]
pub enum PowerMode {
    /// All of it.
    Normal,
    /// With reduced power.
    LowPower,
    /// Nothing but the bus.
    Sleep,
}

/// Where the clock comes from.
#[derive(Debug, Clone, Copy, PartialEq, Eq, Structural)]
pub enum ClockSource {
    /// The internal oscillator of 20 MHz.
    Internal20MHz,
    /// The best source there is.
    AutoSelect,
    /// Nowhere: the clock stands still.
    Stop,
}

impl ClockSource {
    /// The code of `CLKSEL`.
    pub open spec fn spec_code(self) -> u8 {
        match self {
            ClockSource::Internal20MHz => 0,
            ClockSource::AutoSelect => 1,
            ClockSource::Stop => 7,
        }
    }

    /// The code of `CLKSEL`.
    #[verifier::when_used_as_spec(spec_code)]
    pub fn code(self) -> (code: u8)
        ensures
            code == self.spec_code(),
    {
        match self {
            ClockSource::Internal20MHz => 0,
            ClockSource::AutoSelect => 1,
            ClockSource::Stop => 7,
        }
    }
}

/// What runs in duty cycles.
#[derive(Debug, Clone, Copy, PartialEq, Eq, Structural)]
pub struct CycleConfig {
    /// The accelerometer.
    pub enable_accel_cycle: bool,
    /// The gyroscope.
    pub enable_gyro_cycle: bool,
    /// The I2C master.
    pub enable_i2c_master_cycle: bool,
}

/// Which axes are off.
#[derive(Debug, Clone, Copy, PartialEq, Eq, Structural)]
pub struct SensorPowerConfig {
    /// The X axis of the accelerometer.
    pub disable_accel_x: bool,
    /// The Y axis of the accelerometer.
    pub disable_accel_y: bool,
    /// The Z axis of the accelerometer.
    pub disable_accel_z: bool,
    /// The X axis of the gyroscope.
    pub disable_gyro_x: bool,
    /// The Y axis of the gyroscope.
    pub disable_gyro_y: bool,
    /// The Z axis of the gyroscope.
    pub disable_gyro_z: bool,
}

/// What motion is measured against.
#[derive(Debug, Clone, Copy, PartialEq, Eq, Structural)]
pub enum WomMode {
    /// The first sample.
    CompareInitial,
    /// The sample before.
    ComparePrevious,
}

/// Sample rate of the accelerometer in low power.
#[derive(Debug, Clone, Copy, PartialEq, Eq, Structural)]
pub struct LowPowerRate {
    /// What 1125 Hz is divided by, less one.
    pub divider: u8,
}

impl LowPowerRate {
    /// What goes into `ACCEL_SMPLRT_DIV_2`.
    pub fn odr_value(self) -> (value: u8)
        ensures
            value == self.divider,
    {
        self.divider
    }
}

/// How the chip saves power.
#[derive(Debug, Clone, Copy, PartialEq, Eq, Structural)]
pub struct LowPowerConfig {
    /// The sample rate of the accelerometer.
    pub accel_rate: LowPowerRate,
    /// Motion raises an interrupt.
    pub enable_wake_on_motion: bool,
    /// How much motion, in steps of 4 mg.
    pub wom_threshold: u8,
    /// What motion is measured against.
    pub wom_mode: WomMode,
}

impl LowPowerConfig {
    /// What goes into `ACCEL_WOM_THR`.
    pub fn wom_threshold_register_value(&self) -> (value: u8)
        ensures
            value == self.wom_threshold,
    {
        self.wom_threshold
    }
}

/// What the power registers say.
#[derive(Debug, Clone, Copy, PartialEq, Eq, Structural)]
pub struct PowerStatus {
    /// How much of the chip runs.
    pub mode: PowerMode,
    /// It sleeps.
    pub sleep: bool,
    /// It runs with reduced power.
    pub low_power: bool,
    /// The temperature sensor is off.
    pub temp_disabled: bool,
    /// The accelerometer runs in duty cycles.
    pub accel_cycle: bool,
    /// The gyroscope runs in duty cycles.
    pub gyro_cycle: bool,
    /// The I2C master runs in duty cycles.
    pub i2c_master_cycle: bool,
}

/// The bits of `PWR_MGMT_1` that a mode clears and sets. Sleep leaves the bit of
/// low power as it is.
pub open spec fn mode_bits(mode: PowerMode) -> (u8, u8) {
    match mode {
        PowerMode::Normal => (SLEEP | LP_EN, 0),
        PowerMode::LowPower => (SLEEP | LP_EN, LP_EN),
        PowerMode::Sleep => (SLEEP, SLEEP),
    }
}

/// Sets the mode and waits a millisecond.
pub open spec fn set_mode<E>(run: Run<E>, mode: PowerMode) -> Run<E> {
    run.select(Bank::Bank0).modify(
        Register::PwrMgmt1,
        mode_bits(mode).0,
        mode_bits(mode).1,
    ).ms(1)
}

/// What `LP_CONFIG` holds for a set of duty cycles.
pub open spec fn cycle_bits(config: CycleConfig) -> u8 {
    flag(ACCEL_CYCLE, config.enable_accel_cycle) | flag(GYRO_CYCLE, config.enable_gyro_cycle)
        | flag(I2C_MST_CYCLE, config.enable_i2c_master_cycle)
}

/// What `PWR_MGMT_2` holds for a set of axes.
pub open spec fn axis_bits(config: SensorPowerConfig) -> u8 {
    flag(DISABLE_ACCEL_X, config.disable_accel_x) | flag(DISABLE_ACCEL_Y, config.disable_accel_y)
        | flag(DISABLE_ACCEL_Z, config.disable_accel_z) | flag(
        DISABLE_GYRO_X,
        config.disable_gyro_x,
    ) | flag(DISABLE_GYRO_Y, config.disable_gyro_y) | flag(DISABLE_GYRO_Z, config.disable_gyro_z)
}

/// Writes `PWR_MGMT_2`.
pub open spec fn set_axes<E>(run: Run<E>, config: SensorPowerConfig) -> Run<E> {
    run.select(Bank::Bank0).put(Register::PwrMgmt2, axis_bits(config))
}

/// The gyroscope, all of it.
pub open spec fn whole_gyroscope() -> u8 {
    DISABLE_GYRO_X | DISABLE_GYRO_Y | DISABLE_GYRO_Z
}

/// What `ACCEL_INTEL_CTRL` holds while motion is looked for.
pub open spec fn wom_bits(mode: WomMode) -> u8 {
    ACCEL_INTEL_EN | flag(ACCEL_INTEL_MODE_INT, mode is ComparePrevious)
}

/// Sets the accelerometer up for low power: the threshold for motion, if motion is
/// looked for, the sample rate, the one filter that low power works with, and no
/// averaging.
pub open spec fn prepare_low_power<E>(run: Run<E>, config: LowPowerConfig) -> Run<E> {
    let selected = run.select(Bank::Bank2);
    let looking = if config.enable_wake_on_motion {
        selected.put(Register::AccelWomThr, config.wom_threshold).put(
            Register::AccelIntelCtrl,
            wom_bits(config.wom_mode),
        )
    } else {
        selected
    };
    looking.put(Register::AccelSmplrtDiv1, 0).put(
        Register::AccelSmplrtDiv2,
        config.accel_rate.divider,
    ).put(
        Register::AccelConfig,
        (8 * 7 + 2 * looking.state().accel_config.full_scale.code() + 1) as u8,
    ).put(Register::AccelConfig2, 0)
}

/// Enters low power: only the accelerometer stays on, and runs in duty cycles. If
/// motion is looked for, whatever is pending is read away, or fails to be, before
/// motion may raise an interrupt.
pub open spec fn enter_low_power<E>(run: Run<E>, config: LowPowerConfig) -> Run<E> {
    let entered = prepare_low_power(run, config).select(Bank::Bank0).put(
        Register::PwrMgmt2,
        whole_gyroscope(),
    ).modify(Register::PwrMgmt1, LP_EN | SLEEP, LP_EN).modify(
        Register::LpConfig,
        ACCEL_CYCLE,
        ACCEL_CYCLE,
    ).ms(1);
    if config.enable_wake_on_motion && entered.ok() {
        interrupt::status(entered).0.forgive().ms(1).modify(
            Register::IntEnable,
            WOM_INT_EN,
            WOM_INT_EN,
        )
    } else {
        entered
    }
}

/// Leaves low power and restores the settings of the accelerometer.
pub open spec fn leave_low_power<E>(run: Run<E>) -> Run<E> {
    let cleared = run.select(Bank::Bank0).modify(Register::PwrMgmt1, LP_EN | SLEEP, 0).put(
        Register::LpConfig,
        0,
    ).select(Bank::Bank2);
    cleared.put(
        Register::AccelConfig,
        accelerometer::config_bits(cleared.state().accel_config),
    ).put(Register::AccelConfig2, 0).select(Bank::Bank0)
}

/// What `PWR_MGMT_1` and `LP_CONFIG` say.
pub open spec fn status_of(pwr_mgmt_1: u8, lp_config: u8) -> PowerStatus {
    let sleep = pwr_mgmt_1 & SLEEP != 0;
    let low_power = pwr_mgmt_1 & LP_EN != 0;
    PowerStatus {
        mode: if sleep {
            PowerMode::Sleep
        } else if low_power {
            PowerMode::LowPower
        } else {
            PowerMode::Normal
        },
        sleep,
        low_power,
        temp_disabled: pwr_mgmt_1 & TEMP_DIS != 0,
        accel_cycle: lp_config & ACCEL_CYCLE != 0,
        gyro_cycle: lp_config & GYRO_CYCLE != 0,
        i2c_master_cycle: lp_config & I2C_MST_CYCLE != 0,
    }
}

/// Reads the power registers: the run, and what they say.
pub open spec fn status<E>(run: Run<E>) -> (Run<E>, PowerStatus) {
    let r = run.select(Bank::Bank0);
    let then = r.get(Register::PwrMgmt1);
    (then.get(Register::LpConfig), status_of(r.next_byte(), then.next_byte()))
}

/// Sets what runs in duty cycles.
pub open spec fn set_cycles<E>(run: Run<E>, config: CycleConfig) -> Run<E> {
    run.select(Bank::Bank0).put(Register::LpConfig, cycle_bits(config))
}

/// Lets the accelerometer, the gyroscope or both run continuously.
pub open spec fn run_continuously<E>(run: Run<E>, accel: bool, gyro: bool) -> Run<E> {
    run.select(Bank::Bank0).modify(
        Register::LpConfig,
        flag(ACCEL_CYCLE, accel) | flag(GYRO_CYCLE, gyro),
        0,
    )
}

/// Sets where the clock comes from.
pub open spec fn set_clock<E>(run: Run<E>, source: ClockSource) -> Run<E> {
    run.select(Bank::Bank0).modify(Register::PwrMgmt1, CLKSEL, source.code())
}

/// Turns the temperature sensor on or off.
pub open spec fn switch_temperature<E>(run: Run<E>, on: bool) -> Run<E> {
    run.select(Bank::Bank0).modify(Register::PwrMgmt1, TEMP_DIS, flag(TEMP_DIS, !on))
}

/// Reads a register of bank 0: the run, and those of its bits that are in use.
pub open spec fn look<E>(run: Run<E>, register: Register, in_use: u8) -> (Run<E>, u8) {
    let r = run.select(Bank::Bank0);
    (r.get(register), r.next_byte() & in_use)
}

/// Reads `USER_CTRL`: the run, and what the register holds.
pub open spec fn user_ctrl<E>(run: Run<E>) -> (Run<E>, u8) {
    let r = run.select(Bank::Bank0);
    (r.get(Register::UserCtrl), r.next_byte())
}

/// Reads the settings of the gyroscope: the run, and the two registers.
pub open spec fn gyro_registers<E>(run: Run<E>) -> (Run<E>, (u8, u8)) {
    let r = run.select(Bank::Bank2);
    let then = r.get(Register::GyroConfig1);
    (
        then.get(Register::GyroSmplrtDiv).select(Bank::Bank0),
        (r.next_byte() & 0x3F, then.next_byte()),
    )
}

/// Reads the settings of the accelerometer: the run, and the three registers.
pub open spec fn accel_registers<E>(run: Run<E>) -> (Run<E>, (u8, u8, u8)) {
    let r = run.select(Bank::Bank2);
    let r1 = r.get(Register::AccelConfig);
    let r2 = r1.get(Register::AccelSmplrtDiv1);
    (
        r2.get(Register::AccelSmplrtDiv2).select(Bank::Bank0),
        (r.next_byte() & 0x3F, r1.next_byte() & 0x0F, r2.next_byte()),
    )
}

/// Reads bit 0 of a register of bank 2: the run, and the bit.
pub open spec fn look_at_switch<E>(run: Run<E>, register: Register) -> (Run<E>, u8) {
    let r = run.select(Bank::Bank2);
    (r.get(register).select(Bank::Bank0), r.next_byte() & 0x01)
}

/// Reads which axes are switched off: the run, and the six bits of `PWR_MGMT_2`.
pub open spec fn axes_off<E>(run: Run<E>) -> (Run<E>, u8) {
    look(run, Register::PwrMgmt2, 0x3F)
}

/// Reads what runs in duty cycles: the run, and the three bits of `LP_CONFIG`.
pub open spec fn cycles<E>(run: Run<E>) -> (Run<E>, u8) {
    look(run, Register::LpConfig, 0x70)
}

/// Reads whether the sample rates are aligned: the run, and the bit of `ODR_ALIGN_EN`.
pub open spec fn alignment<E>(run: Run<E>) -> (Run<E>, u8) {
    look_at_switch(run, Register::OdrAlignEn)
}

/// Reads whether the processor runs in low power: the run, and the bit of `MOD_CTRL_USR`.
pub open spec fn processor_power<E>(run: Run<E>) -> (Run<E>, u8) {
    look_at_switch(run, Register::ModCtrlUsr)
}

impl<I: Interface> Icm20948Driver<I> {
    /// Sets how much of the chip runs, and waits a millisecond for it.
    pub fn set_power_mode<D: Delay>(&mut self, mode: PowerMode, delay: &mut D) -> (res: Result<
        (),
        Error<I::Error>,
    >)
        ensures
            set_mode(old(self)@.run(), mode).ends(final(self)@, res),
            old(self)@.waited(final(self)@, old(delay).log(), final(delay).log()),
    {
        proof {
            script::lemma_since_start(self@, delay.log());
        }
        self.select_bank(Bank::Bank0)?;
        match mode {
            PowerMode::Normal => self.modify(Register::PwrMgmt1, SLEEP | LP_EN, 0)?,
            PowerMode::LowPower => self.modify(Register::PwrMgmt1, SLEEP | LP_EN, LP_EN)?,
            PowerMode::Sleep => self.modify(Register::PwrMgmt1, SLEEP, SLEEP)?,
        }
        self.pause_ms(delay, 1);
        Ok(())
    }

    /// Sets the accelerometer up for low power.
    fn prepare_low_power(&mut self, config: &LowPowerConfig) -> (res: Result<(), Error<I::Error>>)
        ensures
            prepare_low_power(old(self)@.run(), *config).ends(final(self)@, res),
            res is Ok ==> old(self)@.moved_to(final(self)@, Bank::Bank2),
            old(self)@.at_once(final(self)@),
    {
        self.select_bank(Bank::Bank2)?;
        if config.enable_wake_on_motion {
            self.put(Register::AccelWomThr, config.wom_threshold_register_value())?;
            let previous = match config.wom_mode {
                WomMode::CompareInitial => false,
                WomMode::ComparePrevious => true,
            };
            self.put(
                Register::AccelIntelCtrl,
                ACCEL_INTEL_EN | flag(ACCEL_INTEL_MODE_INT, previous),
            )?;
        }
        self.put(Register::AccelSmplrtDiv1, 0)?;
        self.put(Register::AccelSmplrtDiv2, config.accel_rate.odr_value())?;
        let full_scale: u8 = self.state().accel_config.full_scale.code();
        self.put(Register::AccelConfig, 8 * 7 + 2 * full_scale + 1)?;
        self.put(Register::AccelConfig2, 0)
    }

    /// Enters low power, and looks for motion if that is wanted.
    pub fn enter_low_power_mode<D: Delay>(
        &mut self,
        config: &LowPowerConfig,
        delay: &mut D,
    ) -> (res: Result<(), Error<I::Error>>)
        ensures
            enter_low_power(old(self)@.run(), *config).ends(final(self)@, res),
            old(self)@.waited(final(self)@, old(delay).log(), final(delay).log()),
    {
        proof {
            script::lemma_since_start(self@, delay.log());
        }
        self.prepare_low_power(config)?;
        self.select_bank(Bank::Bank0)?;
        self.put(Register::PwrMgmt2, DISABLE_GYRO_X | DISABLE_GYRO_Y | DISABLE_GYRO_Z)?;
        self.modify(Register::PwrMgmt1, LP_EN | SLEEP, LP_EN)?;
        self.modify(Register::LpConfig, ACCEL_CYCLE, ACCEL_CYCLE)?;
        self.pause_ms(delay, 1);
        if config.enable_wake_on_motion {
            let _ = self.read_interrupt_status();
            self.pause_ms(delay, 1);
            self.modify(Register::IntEnable, WOM_INT_EN, WOM_INT_EN)?;
        }
        Ok(())
    }

    /// Leaves low power and restores the settings of the accelerometer.
    pub fn exit_low_power_mode(&mut self) -> (res: Result<(), Error<I::Error>>)
        ensures
            leave_low_power(old(self)@.run()).ends(final(self)@, res),
            old(self)@.at_once(final(self)@),
    {
        self.select_bank(Bank::Bank0)?;
        self.modify(Register::PwrMgmt1, LP_EN | SLEEP, 0)?;
        self.put(Register::LpConfig, 0)?;
        self.select_bank(Bank::Bank2)?;
        let config = self.state().accel_config;
        self.put(
            Register::AccelConfig,
            8 * config.dlpf.code() + 2 * config.full_scale.code() + flag(1, config.dlpf_enable),
        )?;
        self.put(Register::AccelConfig2, 0)?;
        self.select_bank(Bank::Bank0)
    }

    /// Sets what runs in duty cycles.
    pub fn configure_cycle_mode(&mut self, config: &CycleConfig) -> (res: Result<
        (),
        Error<I::Error>,
    >)
        ensures
            set_cycles(old(self)@.run(), *config).ends(final(self)@, res),
            old(self)@.at_once(final(self)@),
    {
        self.select_bank(Bank::Bank0)?;
        self.put(
            Register::LpConfig,
            flag(ACCEL_CYCLE, config.enable_accel_cycle) | flag(
                GYRO_CYCLE,
                config.enable_gyro_cycle,
            ) | flag(I2C_MST_CYCLE, config.enable_i2c_master_cycle),
        )
    }

    /// Lets the accelerometer, the gyroscope or both run continuously. What is not
    /// named stays as it is.
    pub fn set_continuous_mode(&mut self, enable_accel: bool, enable_gyro: bool) -> (res: Result<
        (),
        Error<I::Error>,
    >)
        ensures
            run_continuously(old(self)@.run(), enable_accel, enable_gyro).ends(final(self)@, res),
            old(self)@.at_once(final(self)@),
    {
        self.select_bank(Bank::Bank0)?;
        self.modify(
            Register::LpConfig,
            flag(ACCEL_CYCLE, enable_accel) | flag(GYRO_CYCLE, enable_gyro),
            0,
        )
    }

    /// Sets where the clock comes from.
    pub fn set_clock_source(&mut self, source: ClockSource) -> (res: Result<(), Error<I::Error>>)
        ensures
            set_clock(old(self)@.run(), source).ends(final(self)@, res),
            old(self)@.at_once(final(self)@),
    {
        self.select_bank(Bank::Bank0)?;
        self.modify(Register::PwrMgmt1, CLKSEL, source.code())
    }

    /// Turns the temperature sensor on or off.
    pub fn set_temperature_sensor(&mut self, enable: bool) -> (res: Result<(), Error<I::Error>>)
        ensures
            switch_temperature(old(self)@.run(), enable).ends(final(self)@, res),
            old(self)@.at_once(final(self)@),
    {
        self.select_bank(Bank::Bank0)?;
        self.modify(Register::PwrMgmt1, TEMP_DIS, flag(TEMP_DIS, !enable))
    }

    /// Sets which axes are off.
    pub fn configure_sensor_power(&mut self, config: &SensorPowerConfig) -> (res: Result<
        (),
        Error<I::Error>,
    >)
        ensures
            set_axes(old(self)@.run(), *config).ends(final(self)@, res),
            old(self)@.at_once(final(self)@),
    {
        self.select_bank(Bank::Bank0)?;
        self.put(
            Register::PwrMgmt2,
            flag(DISABLE_ACCEL_X, config.disable_accel_x) | flag(
                DISABLE_ACCEL_Y,
                config.disable_accel_y,
            ) | flag(DISABLE_ACCEL_Z, config.disable_accel_z) | flag(
                DISABLE_GYRO_X,
                config.disable_gyro_x,
            ) | flag(DISABLE_GYRO_Y, config.disable_gyro_y) | flag(
                DISABLE_GYRO_Z,
                config.disable_gyro_z,
            ),
        )
    }

    /// Reads how much of the chip runs, and what runs in duty cycles.
    pub fn read_power_status(&mut self) -> (res: Result<PowerStatus, Error<I::Error>>)
        ensures
            status(old(self)@.run()).0.yields(final(self)@, res, status(old(self)@.run()).1),
            old(self)@.at_once(final(self)@),
    {
        self.select_bank(Bank::Bank0)?;
        let pwr_mgmt_1: u8 = self.get(Register::PwrMgmt1)?;
        let lp_config: u8 = self.get(Register::LpConfig)?;
        let sleep = pwr_mgmt_1 & SLEEP != 0;
        let low_power = pwr_mgmt_1 & LP_EN != 0;
        let mode = if sleep {
            PowerMode::Sleep
        } else if low_power {
            PowerMode::LowPower
        } else {
            PowerMode::Normal
        };
        Ok(
            PowerStatus {
                mode,
                sleep,
                low_power,
                temp_disabled: pwr_mgmt_1 & TEMP_DIS != 0,
                accel_cycle: lp_config & ACCEL_CYCLE != 0,
                gyro_cycle: lp_config & GYRO_CYCLE != 0,
                i2c_master_cycle: lp_config & I2C_MST_CYCLE != 0,
            },
        )
    }

    /// Reads `USER_CTRL`, as it stands.
    pub fn read_user_ctrl(&mut self) -> (res: Result<u8, Error<I::Error>>)
        ensures
            ({
                let (run, value) = user_ctrl(old(self)@.run());
                run.yields(final(self)@, res, value)
            }),
            old(self)@.at_once(final(self)@),
    {
        self.select_bank(Bank::Bank0)?;
        self.get(Register::UserCtrl)
    }

    /// Reads `PWR_MGMT_2`, of which bits 5 to 0 are in use.
    pub fn read_pwr_mgmt_2(&mut self) -> (res: Result<u8, Error<I::Error>>)
        ensures
            ({
                let (run, value) = axes_off(old(self)@.run());
                run.yields(final(self)@, res, value)
            }),
            old(self)@.at_once(final(self)@),
    {
        self.select_bank(Bank::Bank0)?;
        let value: u8 = self.get(Register::PwrMgmt2)?;
        Ok(value & 0x3F)
    }

    /// Reads `LP_CONFIG`, of which bits 6 to 4 are in use.
    pub fn read_lp_config(&mut self) -> (res: Result<u8, Error<I::Error>>)
        ensures
            ({
                let (run, value) = cycles(old(self)@.run());
                run.yields(final(self)@, res, value)
            }),
            old(self)@.at_once(final(self)@),
    {
        self.select_bank(Bank::Bank0)?;
        let value: u8 = self.get(Register::LpConfig)?;
        Ok(value & 0x70)
    }

    /// Reads `GYRO_CONFIG_1`, of which bits 5 to 0 are in use, and
    /// `GYRO_SMPLRT_DIV`.
    pub fn read_bank2_gyro_config(&mut self) -> (res: Result<(u8, u8), Error<I::Error>>)
        ensures
            ({
                let (run, value) = gyro_registers(old(self)@.run());
                run.yields(final(self)@, res, value)
            }),
            old(self)@.at_once(final(self)@),
    {
        self.select_bank(Bank::Bank2)?;
        let config: u8 = self.get(Register::GyroConfig1)?;
        let divider: u8 = self.get(Register::GyroSmplrtDiv)?;
        self.select_bank(Bank::Bank0)?;
        Ok((config & 0x3F, divider))
    }

    /// Reads `ACCEL_CONFIG`, of which bits 5 to 0 are in use, `ACCEL_SMPLRT_DIV_1`,
    /// of which bits 3 to 0 are in use, and `ACCEL_SMPLRT_DIV_2`.
    pub fn read_bank2_accel_config(&mut self) -> (res: Result<(u8, u8, u8), Error<I::Error>>)
        ensures
            ({
                let (run, value) = accel_registers(old(self)@.run());
                run.yields(final(self)@, res, value)
            }),
            old(self)@.at_once(final(self)@),
    {
        self.select_bank(Bank::Bank2)?;
        let config: u8 = self.get(Register::AccelConfig)?;
        let divider_high: u8 = self.get(Register::AccelSmplrtDiv1)?;
        let divider_low: u8 = self.get(Register::AccelSmplrtDiv2)?;
        self.select_bank(Bank::Bank0)?;
        Ok((config & 0x3F, divider_high & 0x0F, divider_low))
    }

    /// Reads `ODR_ALIGN_EN`, of which bit 0 is in use.
    pub fn read_bank2_odr_align(&mut self) -> (res: Result<u8, Error<I::Error>>)
        ensures
            ({
                let (run, value) = alignment(old(self)@.run());
                run.yields(final(self)@, res, value)
            }),
            old(self)@.at_once(final(self)@),
    {
        self.select_bank(Bank::Bank2)?;
        let value: u8 = self.get(Register::OdrAlignEn)?;
        self.select_bank(Bank::Bank0)?;
        Ok(value & 0x01)
    }

    /// Reads `MOD_CTRL_USR`, of which bit 0 is in use.
    pub fn read_bank2_mod_ctrl_usr(&mut self) -> (res: Result<u8, Error<I::Error>>)
        ensures
            ({
                let (run, value) = processor_power(old(self)@.run());
                run.yields(final(self)@, res, value)
            }),
            old(self)@.at_once(final(self)@),
    {
        self.select_bank(Bank::Bank2)?;
        let value: u8 = self.get(Register::ModCtrlUsr)?;
        self.select_bank(Bank::Bank0)?;
        Ok(value & 0x01)
    }
}

} // verus!
