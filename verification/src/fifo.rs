//! The FIFO: what goes into it, and how it is read.

use vstd::prelude::*;

use crate::device;
use crate::device::{flag, Icm20948Driver};
use crate::dmp;
use crate::interface::Interface;
use crate::registers::{
    Register, ACCEL_FIFO_EN, ALL_FIFOS, FIFO_EN, GYRO_X_FIFO_EN, GYRO_Y_FIFO_EN, GYRO_Z_FIFO_EN,
    SLV_0_FIFO_EN, SLV_1_FIFO_EN, SLV_2_FIFO_EN, SLV_3_FIFO_EN, TEMP_FIFO_EN,
};
use crate::script;
use crate::script::Run;
use crate::{Bank, Error};

verus! {

broadcast use crate::script::group_steps;

/// `heapless::Vec`, a vector of at most `N` elements that needs no heap. Nothing
/// is claimed of it: it carries the records that a parser found.
#[verifier::external_type_specification]
#[verifier::external_body]
#[verifier::reject_recursive_types(T)]
pub struct ExHeaplessVec<T, const N: usize>(heapless::Vec<T, N>);

/// The most records that parsing yields.
pub const MAX_RECORDS: usize = 64;

/// Why FIFO data could not be parsed.
#[derive(Debug, Clone, Copy, PartialEq, Eq, Structural)]
pub enum ParseError {
    /// There are more than [`MAX_RECORDS`] records.
    Overflow,
    /// The data does not fit the configuration.
    Malformed,
}

/// What the FIFO does when it is full.
#[derive(Debug, Clone, Copy, PartialEq, Eq, Structural)]
pub enum FifoMode {
    /// New data replaces the oldest.
    Stream,
    /// New data is dropped.
    Snapshot,
}

impl FifoMode {
    /// The code of `FIFO_MODE`, the same for all five FIFOs.
    pub open spec fn spec_code(self) -> u8 {
        match self {
            FifoMode::Stream => 0x00,
            FifoMode::Snapshot => 0x1F,
        }
    }

    /// The code of `FIFO_MODE`, the same for all five FIFOs.
    #[verifier::when_used_as_spec(spec_code)]
    pub fn code(self) -> (code: u8)
        ensures
            code == self.spec_code(),
    {
        match self {
            FifoMode::Stream => 0x00,
            FifoMode::Snapshot => 0x1F,
        }
    }
}

/// What goes into the FIFO, by sensor.
#[derive(Debug, Clone, Copy, PartialEq, Eq, Structural)]
pub struct FifoConfig {
    /// The accelerometer.
    pub enable_accel: bool,
    /// The three axes of the gyroscope.
    pub enable_gyro: bool,
    /// The temperature.
    pub enable_temp: bool,
    /// What happens when the FIFO is full.
    pub mode: FifoMode,
}

/// What goes into the FIFO, by axis and by slave of the I2C master.
#[derive(Debug, Clone, Copy, PartialEq, Eq, Structural)]
pub struct FifoConfigAdvanced {
    /// Slave 0.
    pub enable_slv0: bool,
    /// Slave 1.
    pub enable_slv1: bool,
    /// Slave 2.
    pub enable_slv2: bool,
    /// Slave 3.
    pub enable_slv3: bool,
    /// The accelerometer.
    pub enable_accel: bool,
    /// The X axis of the gyroscope.
    pub enable_gyro_x: bool,
    /// The Y axis of the gyroscope.
    pub enable_gyro_y: bool,
    /// The Z axis of the gyroscope.
    pub enable_gyro_z: bool,
    /// The temperature.
    pub enable_temp: bool,
    /// What happens when the FIFO is full.
    pub mode: FifoMode,
}

impl FifoConfig {
    /// The same settings by axis, with no slave.
    pub open spec fn spec_advanced(self) -> FifoConfigAdvanced {
        FifoConfigAdvanced {
            enable_slv0: false,
            enable_slv1: false,
            enable_slv2: false,
            enable_slv3: false,
            enable_accel: self.enable_accel,
            enable_gyro_x: self.enable_gyro,
            enable_gyro_y: self.enable_gyro,
            enable_gyro_z: self.enable_gyro,
            enable_temp: self.enable_temp,
            mode: self.mode,
        }
    }
}

impl From<FifoConfig> for FifoConfigAdvanced {
    fn from(config: FifoConfig) -> (advanced: Self) {
        FifoConfigAdvanced {
            enable_slv0: false,
            enable_slv1: false,
            enable_slv2: false,
            enable_slv3: false,
            enable_accel: config.enable_accel,
            enable_gyro_x: config.enable_gyro,
            enable_gyro_y: config.enable_gyro,
            enable_gyro_z: config.enable_gyro,
            enable_temp: config.enable_temp,
            mode: config.mode,
        }
    }
}

impl vstd::std_specs::convert::FromSpecImpl<FifoConfig> for FifoConfigAdvanced {
    open spec fn obeys_from_spec() -> bool {
        true
    }

    open spec fn from_spec(config: FifoConfig) -> Self {
        config.spec_advanced()
    }
}

/// Which of the five FIFOs overflowed.
#[derive(Debug, Clone, Copy, PartialEq, Eq, Structural)]
pub struct FifoOverflowStatus {
    /// FIFO 0.
    pub fifo0: bool,
    /// FIFO 1.
    pub fifo1: bool,
    /// FIFO 2.
    pub fifo2: bool,
    /// FIFO 3.
    pub fifo3: bool,
    /// FIFO 4.
    pub fifo4: bool,
}

/// What `INT_STATUS_2` says of the FIFOs.
pub open spec fn overflow_of(bits: u8) -> FifoOverflowStatus {
    FifoOverflowStatus {
        fifo0: bits & 0x01 != 0,
        fifo1: bits & 0x02 != 0,
        fifo2: bits & 0x04 != 0,
        fifo3: bits & 0x08 != 0,
        fifo4: bits & 0x10 != 0,
    }
}

/// Writes the settings, with the given code of the mode.
pub open spec fn configure<E>(run: Run<E>, config: FifoConfigAdvanced, mode: u8) -> Run<E> {
    run.select(Bank::Bank0).put(
        Register::FifoEn1,
        flag(SLV_0_FIFO_EN, config.enable_slv0) | flag(SLV_1_FIFO_EN, config.enable_slv1) | flag(
            SLV_2_FIFO_EN,
            config.enable_slv2,
        ) | flag(SLV_3_FIFO_EN, config.enable_slv3),
    ).put(
        Register::FifoEn2,
        flag(ACCEL_FIFO_EN, config.enable_accel) | flag(GYRO_X_FIFO_EN, config.enable_gyro_x)
            | flag(GYRO_Y_FIFO_EN, config.enable_gyro_y) | flag(
            GYRO_Z_FIFO_EN,
            config.enable_gyro_z,
        ) | flag(TEMP_FIFO_EN, config.enable_temp),
    ).put(Register::FifoMode, mode)
}

/// Writes the settings, with the code of their mode.
pub open spec fn apply<E>(run: Run<E>, config: FifoConfigAdvanced) -> Run<E> {
    configure(run, config, config.mode.code())
}

/// Empties all FIFOs.
pub open spec fn empty<E>(run: Run<E>) -> Run<E> {
    run.select(Bank::Bank0).put(Register::FifoRst, ALL_FIFOS).put(Register::FifoRst, 0)
}

/// Reads which FIFOs overflowed: the run, and these.
pub open spec fn overflows<E>(run: Run<E>) -> (Run<E>, FifoOverflowStatus) {
    let r = run.select(Bank::Bank0);
    (r.get(Register::IntStatus2), overflow_of(r.next_byte()))
}

/// Reads what waits in the FIFO, byte by byte, into the beginning of `buffer`:
/// the run, the buffer after it, and how many bytes were read. The count is taken
/// once, before the first byte.
pub open spec fn drain<E>(run: Run<E>, buffer: Seq<u8>) -> (Run<E>, Seq<u8>, usize) {
    let (counted, waiting) = dmp::count(run);
    let len = if waiting < buffer.len() {
        waiting as int
    } else {
        buffer.len() as int
    };
    let (read, bytes) = script::fill(counted, Register::FifoRW, buffer, 0, len);
    (read, bytes, len as usize)
}

impl<I: Interface> Icm20948Driver<I> {
    /// Sets what goes into the FIFO, by sensor.
    pub fn fifo_configure(&mut self, config: &FifoConfig) -> (res: Result<(), Error<I::Error>>)
        ensures
            apply(old(self)@.run(), config.spec_advanced()).ends(final(self)@, res),
            old(self)@.at_once(final(self)@),
    {
        let advanced = FifoConfigAdvanced::from(*config);
        self.fifo_configure_advanced(&advanced)
    }

    /// Sets what goes into the FIFO, by axis and by slave.
    pub fn fifo_configure_advanced(&mut self, config: &FifoConfigAdvanced) -> (res: Result<
        (),
        Error<I::Error>,
    >)
        ensures
            apply(old(self)@.run(), *config).ends(final(self)@, res),
            old(self)@.at_once(final(self)@),
    {
        self.configure_fifo(config, config.mode.code())
    }

    /// Sets what goes into the FIFO, with the given code of the mode.
    pub(crate) fn configure_fifo(&mut self, config: &FifoConfigAdvanced, mode: u8) -> (res: Result<
        (),
        Error<I::Error>,
    >)
        ensures
            configure(old(self)@.run(), *config, mode).ends(final(self)@, res),
            old(self)@.at_once(final(self)@),
    {
        self.select_bank(Bank::Bank0)?;
        self.put(
            Register::FifoEn1,
            flag(SLV_0_FIFO_EN, config.enable_slv0) | flag(SLV_1_FIFO_EN, config.enable_slv1)
                | flag(SLV_2_FIFO_EN, config.enable_slv2) | flag(SLV_3_FIFO_EN, config.enable_slv3),
        )?;
        self.put(
            Register::FifoEn2,
            flag(ACCEL_FIFO_EN, config.enable_accel) | flag(GYRO_X_FIFO_EN, config.enable_gyro_x)
                | flag(GYRO_Y_FIFO_EN, config.enable_gyro_y) | flag(
                GYRO_Z_FIFO_EN,
                config.enable_gyro_z,
            ) | flag(TEMP_FIFO_EN, config.enable_temp),
        )?;
        self.put(Register::FifoMode, mode)
    }

    /// Turns the FIFO on or off.
    pub fn fifo_enable(&mut self, enable: bool) -> (res: Result<(), Error<I::Error>>)
        ensures
            device::switch_fifo(old(self)@.run(), enable).ends(final(self)@, res),
            old(self)@.at_once(final(self)@),
    {
        self.select_bank(Bank::Bank0)?;
        self.modify(Register::UserCtrl, FIFO_EN, flag(FIFO_EN, enable))
    }

    /// Empties all FIFOs.
    pub fn fifo_reset(&mut self) -> (res: Result<(), Error<I::Error>>)
        ensures
            empty(old(self)@.run()).ends(final(self)@, res),
            old(self)@.at_once(final(self)@),
    {
        self.select_bank(Bank::Bank0)?;
        self.put(Register::FifoRst, ALL_FIFOS)?;
        self.put(Register::FifoRst, 0)
    }

    /// Reads how many bytes wait in the FIFO.
    pub fn fifo_count(&mut self) -> (res: Result<u16, Error<I::Error>>)
        ensures
            dmp::count(old(self)@.run()).0.yields(
                final(self)@,
                res,
                dmp::count(old(self)@.run()).1,
            ),
            res is Ok ==> res->Ok_0 < 0x2000 && old(self)@.moved_to(final(self)@, Bank::Bank0),
            old(self)@.at_once(final(self)@),
    {
        self.read_fifo_count()
    }

    /// Reads what waits in the FIFO, as far as `buffer` holds it, and returns how
    /// many bytes these were.
    pub fn fifo_read(&mut self, buffer: &mut [u8]) -> (res: Result<usize, Error<I::Error>>)
        ensures
            ({
                let (run, bytes, len) = drain(old(self)@.run(), old(buffer)@);
                &&& run.yields(final(self)@, res, len)
                &&& final(buffer)@ == bytes
            }),
            old(self)@.at_once(final(self)@),
    {
        let waiting: u16 = self.fifo_count()?;
        let len: usize = if (waiting as usize) < buffer.len() {
            waiting as usize
        } else {
            buffer.len()
        };
        self.fill(Register::FifoRW, buffer, len)?;
        Ok(len)
    }

    /// Takes records out of FIFO data with `parse`. More records than fit are an
    /// overflow of the FIFO; data that does not fit the configuration is an unusable
    /// configuration.
    pub fn fifo_parse<
        R,
        F: Fn(&[u8], &FifoConfigAdvanced) -> Result<heapless::Vec<R, MAX_RECORDS>, ParseError>,
    >(&self, data: &[u8], config: &FifoConfigAdvanced, parse: F) -> (res: Result<
        heapless::Vec<R, MAX_RECORDS>,
        Error<I::Error>,
    >)
        requires
            parse.requires((data, config)),
        ensures
            match res {
                Ok(records) => parse.ensures((data, config), Ok(records)),
                Err(error) => exists|e: ParseError|
                    #[trigger] parse.ensures((data, config), Err(e)) && error == match e {
                        ParseError::Overflow => Error::<I::Error>::FifoOverflow,
                        ParseError::Malformed => Error::<I::Error>::InvalidConfig,
                    },
            },
    {
        match parse(data, config) {
            Ok(records) => Ok(records),
            Err(ParseError::Overflow) => Err(Error::FifoOverflow),
            Err(ParseError::Malformed) => Err(Error::InvalidConfig),
        }
    }

    /// Reads which FIFOs overflowed.
    pub fn fifo_overflow_status(&mut self) -> (res: Result<FifoOverflowStatus, Error<I::Error>>)
        ensures
            ({
                let (run, value) = overflows(old(self)@.run());
                run.yields(final(self)@, res, value)
            }),
            old(self)@.at_once(final(self)@),
    {
        self.select_bank(Bank::Bank0)?;
        let bits: u8 = self.get(Register::IntStatus2)?;
        Ok(
            FifoOverflowStatus {
                fifo0: bits & 0x01 != 0,
                fifo1: bits & 0x02 != 0,
                fifo2: bits & 0x04 != 0,
                fifo3: bits & 0x08 != 0,
                fifo4: bits & 0x10 != 0,
            },
        )
    }
}

} // verus!
