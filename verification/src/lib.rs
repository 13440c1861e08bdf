//! A driver for the ICM-20948 nine-axis motion sensor.
//!
//! The driver talks to the chip through an [`interface::Interface`], which
//! carries register reads and writes over I2C or SPI, and waits with an
//! [`interface::Delay`]. What each method does on the bus, in which order and
//! with which pauses, and what it makes of the answers, is stated in its
//! contract as a [`script`] and proved.

use vstd::prelude::*;

pub mod accelerometer;
pub mod calibration;
pub mod chip;
pub mod compass;
pub mod device;
pub mod dmp;
pub mod effects;
pub mod fifo;
pub mod gyroscope;
pub mod interface;
pub mod interrupt;
pub mod magnetometer;
pub mod nonblocking;
pub mod order;
pub mod power;
pub mod processor;
pub mod readings;
pub mod registers;
pub mod script;
pub mod sensors;
pub mod settings;
pub mod startup;
pub mod transcript;

pub use accelerometer::AccelReading;
pub use device::{AccelData, GyroData, Icm20948Driver, MagData};
pub use fifo::{FifoConfig, FifoConfigAdvanced, FifoMode, FifoOverflowStatus, ParseError};
pub use gyroscope::GyroReading;
pub use interface::{I2cInterface, SpiInterface};
pub use interrupt::{
    DataReadyStatus, InterruptConfig, InterruptPinConfig, InterruptStatus, WomStatus,
};
pub use magnetometer::{MagConfig, MagMode, MagReading};
pub use power::{
    ClockSource, CycleConfig, LowPowerConfig, LowPowerRate, PowerMode, PowerStatus,
    SensorPowerConfig, WomMode,
};
pub use sensors::{
    AccelCalibration, AccelConfig, AccelDlpf, AccelFullScale, GyroCalibration, GyroConfig,
    GyroDlpf, GyroFullScale, MagCalibration,
};

verus! {

/// I2C address of the chip when the AD0 pin is low, which is the usual wiring.
pub const I2C_ADDRESS_AD0_LOW: u8 = 0x68;

/// I2C address of the chip when the AD0 pin is pulled high.
pub const I2C_ADDRESS_AD0_HIGH: u8 = 0x69;

/// What the `WHO_AM_I` register of this chip holds.
pub const WHO_AM_I_VALUE: u8 = 0xEA;

/// The four register banks.
#[derive(Debug, Clone, Copy, PartialEq, Eq, Structural, Hash)]
pub enum Bank {
    /// Bank 0: primary configuration and data registers.
    Bank0,
    /// Bank 1: self-test and advanced features.
    Bank1,
    /// Bank 2: gyroscope and accelerometer configuration.
    Bank2,
    /// Bank 3: I2C master configuration.
    Bank3,
}

impl Bank {
    /// The number of the bank.
    pub open spec fn spec_code(self) -> u8 {
        match self {
            Bank::Bank0 => 0,
            Bank::Bank1 => 1,
            Bank::Bank2 => 2,
            Bank::Bank3 => 3,
        }
    }

    /// The number of the bank.
    #[verifier::when_used_as_spec(spec_code)]
    pub fn code(self) -> (code: u8)
        ensures
            code == self.spec_code(),
    {
        match self {
            Bank::Bank0 => 0,
            Bank::Bank1 => 1,
            Bank::Bank2 => 2,
            Bank::Bank3 => 3,
        }
    }

    /// What `REG_BANK_SEL` holds while the bank is selected: the number, in
    /// bits 5 and 4.
    pub open spec fn spec_select_value(self) -> u8 {
        (16 * self.spec_code()) as u8
    }

    /// What `REG_BANK_SEL` holds while the bank is selected: the number, in
    /// bits 5 and 4.
    #[verifier::when_used_as_spec(spec_select_value)]
    pub fn select_value(self) -> (value: u8)
        ensures
            value == self.spec_select_value(),
    {
        16 * self.code()
    }
}

/// What can go wrong in the driver.
#[derive(Debug)]
pub enum Error<E> {
    /// The bus reported an error.
    Bus(E),
    /// `WHO_AM_I` held something else than this chip's value.
    InvalidDevice(u8),
    /// A configuration parameter is not usable.
    InvalidConfig,
    /// The magnetometer did not answer, or reported an error.
    Magnetometer,
    /// The device moved during calibration.
    DeviceMoving,
    /// The averaged samples of a calibration leave the range of an `i16`.
    CalibrationOverflow,
    /// More FIFO records than the output holds.
    FifoOverflow,
}

impl<E> From<E> for Error<E> {
    fn from(error: E) -> (r: Self) {
        Error::Bus(error)
    }
}

impl<E> vstd::std_specs::convert::FromSpecImpl<E> for Error<E> {
    open spec fn obeys_from_spec() -> bool {
        true
    }

    open spec fn from_spec(error: E) -> Self {
        Error::Bus(error)
    }
}

} // verus!
