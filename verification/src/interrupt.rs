//! Interrupts: what raises them, and what has.

use vstd::prelude::*;

use crate::device::{flag, Icm20948Driver};
use crate::interface::Interface;
use crate::registers::{
    Register, ALL_FIFOS, DMP_INT1, DMP_INT1_EN, I2C_MST_INT, I2C_MST_INT_EN, INT1_ACTL,
    INT1_LATCH_INT_EN, INT1_OPEN, INT_ANYRD_2CLEAR, PLL_RDY_EN, PLL_RDY_INT, RAW_DATA_0_RDY_EN,
    RAW_DATA_0_RDY_INT, WOM_INT, WOM_INT_EN,
};
use crate::script::Run;
use crate::{Bank, Error};

verus! {

broadcast use crate::script::group_steps;

/// How the interrupt pin behaves.
#[derive(Debug, Clone, Copy, PartialEq, Eq, Structural)]
pub struct InterruptPinConfig {
    /// The pin is low while an interrupt is raised.
    pub active_low: bool,
    /// The pin is open-drain instead of push-pull.
    pub open_drain: bool,
    /// The pin holds its level until the interrupt is cleared.
    pub latch_enabled: bool,
    /// Any read clears the interrupt.
    pub clear_on_any_read: bool,
}

/// What raises an interrupt.
#[derive(Debug, Clone, Copy, PartialEq, Eq, Structural)]
pub struct InterruptConfig {
    /// New sensor data.
    pub raw_data_ready: bool,
    /// A FIFO that overflowed.
    pub fifo_overflow: bool,
    /// A FIFO that reached its watermark.
    pub fifo_watermark: bool,
    /// Motion.
    pub wake_on_motion: bool,
    /// The motion processor.
    pub dmp: bool,
    /// The I2C master.
    pub i2c_master: bool,
    /// The clock, when it is ready.
    pub pll_ready: bool,
}

/// What has raised an interrupt.
#[derive(Debug, Clone, Copy, PartialEq, Eq, Structural)]
pub struct InterruptStatus {
    /// New sensor data.
    pub raw_data_ready: bool,
    /// A FIFO that overflowed.
    pub fifo_overflow: bool,
    /// A FIFO that reached its watermark.
    pub fifo_watermark: bool,
    /// Motion.
    pub wake_on_motion: bool,
    /// The motion processor.
    pub dmp: bool,
    /// The I2C master.
    pub i2c_master: bool,
    /// The clock, when it is ready.
    pub pll_ready: bool,
}

/// Which sensors have new data.
#[derive(Debug, Clone, Copy, PartialEq, Eq, Structural)]
pub struct DataReadyStatus {
    /// Sensor 0.
    pub sensor0_ready: bool,
    /// Sensor 1.
    pub sensor1_ready: bool,
    /// Sensor 2.
    pub sensor2_ready: bool,
    /// Sensor 3.
    pub sensor3_ready: bool,
}

/// On which axes there was motion.
#[derive(Debug, Clone, Copy, PartialEq, Eq, Structural)]
pub struct WomStatus {
    /// X axis.
    pub x_motion: bool,
    /// Y axis.
    pub y_motion: bool,
    /// Z axis.
    pub z_motion: bool,
}

/// What `INT_PIN_CFG` holds for a behaviour of the pin.
pub open spec fn pin_bits(config: InterruptPinConfig) -> u8 {
    flag(INT1_ACTL, config.active_low) | flag(INT1_OPEN, config.open_drain) | flag(
        INT1_LATCH_INT_EN,
        config.latch_enabled,
    ) | flag(INT_ANYRD_2CLEAR, config.clear_on_any_read)
}

/// Writes what raises an interrupt, in the four enable registers.
pub open spec fn configure<E>(run: Run<E>, config: InterruptConfig) -> Run<E> {
    run.select(Bank::Bank0).put(
        Register::IntEnable,
        flag(WOM_INT_EN, config.wake_on_motion) | flag(DMP_INT1_EN, config.dmp) | flag(
            I2C_MST_INT_EN,
            config.i2c_master,
        ) | flag(PLL_RDY_EN, config.pll_ready),
    ).put(Register::IntEnable1, flag(RAW_DATA_0_RDY_EN, config.raw_data_ready)).put(
        Register::IntEnable2,
        flag(ALL_FIFOS, config.fifo_overflow),
    ).put(Register::IntEnable3, flag(ALL_FIFOS, config.fifo_watermark))
}

/// Reads the four status registers: the run, and what has raised an interrupt.
pub open spec fn status<E>(run: Run<E>) -> (Run<E>, InterruptStatus) {
    let r0 = run.select(Bank::Bank0);
    let r1 = r0.get(Register::IntStatus);
    let r2 = r1.get(Register::IntStatus1);
    let r3 = r2.get(Register::IntStatus2);
    let r4 = r3.get(Register::IntStatus3);
    (
        r4,
        InterruptStatus {
            raw_data_ready: r1.next_byte() & RAW_DATA_0_RDY_INT != 0,
            fifo_overflow: r2.next_byte() & ALL_FIFOS != 0,
            fifo_watermark: r3.next_byte() & ALL_FIFOS != 0,
            wake_on_motion: r0.next_byte() & WOM_INT != 0,
            dmp: r0.next_byte() & DMP_INT1 != 0,
            i2c_master: r0.next_byte() & I2C_MST_INT != 0,
            pll_ready: r0.next_byte() & PLL_RDY_INT != 0,
        },
    )
}

/// What the low four bits of `DATA_RDY_STATUS` say.
pub open spec fn data_ready_of(bits: u8) -> DataReadyStatus {
    DataReadyStatus {
        sensor0_ready: bits & 0x01 != 0,
        sensor1_ready: bits & 0x02 != 0,
        sensor2_ready: bits & 0x04 != 0,
        sensor3_ready: bits & 0x08 != 0,
    }
}

/// What the high four bits of `DATA_RDY_STATUS` say.
pub open spec fn wom_of(bits: u8) -> WomStatus {
    WomStatus {
        x_motion: bits & 0x10 != 0,
        y_motion: bits & 0x20 != 0,
        z_motion: bits & 0x40 != 0,
    }
}

/// Sets how the interrupt pin behaves.
pub open spec fn set_pin<E>(run: Run<E>, config: InterruptPinConfig) -> Run<E> {
    run.select(Bank::Bank0).put(Register::IntPinCfg, pin_bits(config))
}

/// Reads which sensors have new data: the run, and these.
pub open spec fn data_ready<E>(run: Run<E>) -> (Run<E>, DataReadyStatus) {
    let r = run.select(Bank::Bank0);
    (r.get(Register::DataRdyStatus), data_ready_of(r.next_byte()))
}

/// Reads on which axes there was motion: the run, and these.
pub open spec fn motion_seen<E>(run: Run<E>) -> (Run<E>, WomStatus) {
    let r = run.select(Bank::Bank0);
    (r.get(Register::DataRdyStatus), wom_of(r.next_byte()))
}

impl<I: Interface> Icm20948Driver<I> {
    /// Sets how the interrupt pin behaves.
    pub fn configure_interrupt_pin(&mut self, config: &InterruptPinConfig) -> (res: Result<
        (),
        Error<I::Error>,
    >)
        ensures
            set_pin(old(self)@.run(), *config).ends(final(self)@, res),
            old(self)@.at_once(final(self)@),
    {
        self.select_bank(Bank::Bank0)?;
        self.put(
            Register::IntPinCfg,
            flag(INT1_ACTL, config.active_low) | flag(INT1_OPEN, config.open_drain) | flag(
                INT1_LATCH_INT_EN,
                config.latch_enabled,
            ) | flag(INT_ANYRD_2CLEAR, config.clear_on_any_read),
        )
    }

    /// Sets what raises an interrupt.
    pub fn configure_interrupts(&mut self, config: &InterruptConfig) -> (res: Result<
        (),
        Error<I::Error>,
    >)
        ensures
            configure(old(self)@.run(), *config).ends(final(self)@, res),
            old(self)@.at_once(final(self)@),
    {
        self.select_bank(Bank::Bank0)?;
        self.put(
            Register::IntEnable,
            flag(WOM_INT_EN, config.wake_on_motion) | flag(DMP_INT1_EN, config.dmp) | flag(
                I2C_MST_INT_EN,
                config.i2c_master,
            ) | flag(PLL_RDY_EN, config.pll_ready),
        )?;
        self.put(Register::IntEnable1, flag(RAW_DATA_0_RDY_EN, config.raw_data_ready))?;
        self.put(Register::IntEnable2, flag(ALL_FIFOS, config.fifo_overflow))?;
        self.put(Register::IntEnable3, flag(ALL_FIFOS, config.fifo_watermark))
    }

    /// Reads what has raised an interrupt.
    pub fn read_interrupt_status(&mut self) -> (res: Result<InterruptStatus, Error<I::Error>>)
        ensures
            status(old(self)@.run()).0.yields(final(self)@, res, status(old(self)@.run()).1),
            res is Ok ==> old(self)@.moved_to(final(self)@, Bank::Bank0),
            old(self)@.state.bank == Some(Bank::Bank0) ==> final(self)@.state == old(self)@.state,
            old(self)@.at_once(final(self)@),
    {
        self.select_bank(Bank::Bank0)?;
        let status: u8 = self.get(Register::IntStatus)?;
        let status1: u8 = self.get(Register::IntStatus1)?;
        let status2: u8 = self.get(Register::IntStatus2)?;
        let status3: u8 = self.get(Register::IntStatus3)?;
        Ok(
            InterruptStatus {
                raw_data_ready: status1 & RAW_DATA_0_RDY_INT != 0,
                fifo_overflow: status2 & ALL_FIFOS != 0,
                fifo_watermark: status3 & ALL_FIFOS != 0,
                wake_on_motion: status & WOM_INT != 0,
                dmp: status & DMP_INT1 != 0,
                i2c_master: status & I2C_MST_INT != 0,
                pll_ready: status & PLL_RDY_INT != 0,
            },
        )
    }

    /// Reads which sensors have new data.
    pub fn read_data_ready_status(&mut self) -> (res: Result<DataReadyStatus, Error<I::Error>>)
        ensures
            ({
                let (run, value) = data_ready(old(self)@.run());
                run.yields(final(self)@, res, value)
            }),
            old(self)@.at_once(final(self)@),
    {
        self.select_bank(Bank::Bank0)?;
        let bits: u8 = self.get(Register::DataRdyStatus)?;
        Ok(
            DataReadyStatus {
                sensor0_ready: bits & 0x01 != 0,
                sensor1_ready: bits & 0x02 != 0,
                sensor2_ready: bits & 0x04 != 0,
                sensor3_ready: bits & 0x08 != 0,
            },
        )
    }

    /// Reads on which axes there was motion.
    pub fn read_wom_status(&mut self) -> (res: Result<WomStatus, Error<I::Error>>)
        ensures
            ({
                let (run, value) = motion_seen(old(self)@.run());
                run.yields(final(self)@, res, value)
            }),
            old(self)@.at_once(final(self)@),
    {
        self.select_bank(Bank::Bank0)?;
        let bits: u8 = self.get(Register::DataRdyStatus)?;
        Ok(
            WomStatus {
                x_motion: bits & 0x10 != 0,
                y_motion: bits & 0x20 != 0,
                z_motion: bits & 0x40 != 0,
            },
        )
    }
}

} // verus!
