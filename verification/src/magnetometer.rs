//! The magnetometer, an AK09916 behind the chip's own I2C master.

use vstd::prelude::*;

use crate::device::{join_signed16, signed16, Icm20948Driver, MagData};
use crate::interface::{Delay, Interface};
use crate::registers::{
    Register, BYPASS_EN, CLKSEL, DISABLE_GYRO_X, DISABLE_GYRO_Y, DISABLE_GYRO_Z, I2C_LOST_ARB,
    I2C_MST_CLK, I2C_MST_CYCLE, I2C_MST_EN, I2C_MST_P_NSR, I2C_MST_RST, I2C_SLV4_DONE,
    I2C_SLV4_NACK, I2C_SLV_BYTE_SW, I2C_SLV_EN, I2C_SLV_GRP, I2C_SLV_RNW, SLEEP,
};
use crate::script;
use crate::script::{Run, State};
use crate::sensors::MagCalibration;
use crate::{Bank, Error};

verus! {

broadcast use crate::script::group_steps;

/// I2C address of the magnetometer.
pub const AK09916_I2C_ADDRESS: u8 = 0x0C;

/// The magnetometer's register that identifies it.
pub const AK09916_REG_WIA2: u8 = 0x01;

/// What [`AK09916_REG_WIA2`] holds.
pub const AK09916_WIA2_VALUE: u8 = 0x09;

/// A reserved register of the magnetometer, from which the motion processor reads.
pub const AK09916_REG_RSV2: u8 = 0x03;

/// The magnetometer's first status register.
pub const AK09916_REG_ST1: u8 = 0x10;

/// The first data register of the magnetometer.
pub const AK09916_REG_HXL: u8 = 0x11;

/// The magnetometer's register that sets its mode.
pub const AK09916_REG_CNTL2: u8 = 0x31;

/// The magnetometer's register that resets it.
pub const AK09916_REG_CNTL3: u8 = 0x32;

/// The bit of the second status register that tells of an overflow.
pub const OVERFLOW: u8 = 0x08;

/// How often the magnetometer is asked who it is.
pub const MAX_STARTS: u8 = 5;

/// How often the I2C master is asked again whether a transfer is done.
pub const MAX_RETRIES: u32 = 50;

/// How the magnetometer measures.
#[derive(Debug, Clone, Copy, PartialEq, Eq, Structural)]
pub enum MagMode {
    /// Not at all.
    PowerDown,
    /// Once.
    Single,
    /// Ten times a second.
    Continuous10Hz,
    /// Twenty times a second.
    Continuous20Hz,
    /// Fifty times a second.
    Continuous50Hz,
    /// A hundred times a second.
    Continuous100Hz,
}

impl MagMode {
    /// The code of the mode.
    pub open spec fn spec_code(self) -> u8 {
        match self {
            MagMode::PowerDown => 0x00,
            MagMode::Single => 0x01,
            MagMode::Continuous10Hz => 0x02,
            MagMode::Continuous20Hz => 0x04,
            MagMode::Continuous50Hz => 0x06,
            MagMode::Continuous100Hz => 0x08,
        }
    }

    /// The code of the mode.
    #[verifier::when_used_as_spec(spec_code)]
    pub fn code(self) -> (code: u8)
        ensures
            code == self.spec_code(),
    {
        match self {
            MagMode::PowerDown => 0x00,
            MagMode::Single => 0x01,
            MagMode::Continuous10Hz => 0x02,
            MagMode::Continuous20Hz => 0x04,
            MagMode::Continuous50Hz => 0x06,
            MagMode::Continuous100Hz => 0x08,
        }
    }
}

/// Magnetometer settings.
#[derive(Debug, Clone, Copy, PartialEq, Eq, Structural)]
pub struct MagConfig {
    /// How it measures.
    pub mode: MagMode,
}

impl Default for MagConfig {
    fn default() -> (config: Self)
        ensures
            config == (MagConfig { mode: MagMode::Continuous100Hz }),
    {
        MagConfig { mode: MagMode::Continuous100Hz }
    }
}

/// Asks the I2C master whether the transfer of slave 4 is done, after `retries`
/// times that it was not. It is asked until it says that the transfer is done or
/// failed, but no more than [`MAX_RETRIES`] + 2 times, a millisecond apart.
pub open spec fn poll_done<E>(run: Run<E>, retries: int) -> Run<E>
    decreases MAX_RETRIES + 1 - retries,
{
    let status = run.next_byte();
    let read = run.get(Register::I2cMstStatus);
    if run.failed is Some {
        run
    } else if status & (I2C_SLV4_NACK | I2C_LOST_ARB) != 0 {
        read.fail(Error::Magnetometer)
    } else if status & I2C_SLV4_DONE != 0 {
        read
    } else if retries > MAX_RETRIES {
        read.fail(Error::Magnetometer)
    } else {
        poll_done(read.ms(1), retries + 1)
    }
}

/// Waits until the transfer of slave 4 is done.
pub open spec fn wait_done<E>(run: Run<E>) -> Run<E> {
    poll_done(run.select(Bank::Bank0), 0)
}

/// Clears the status of the last transfer and sets the I2C master going.
pub open spec fn begin_transfer<E>(run: Run<E>) -> Run<E> {
    run.select(Bank::Bank0).get(Register::I2cMstStatus).modify(
        Register::LpConfig,
        I2C_MST_CYCLE,
        I2C_MST_CYCLE,
    ).ms(1).select(Bank::Bank3)
}

/// Waits for a transfer and stops the I2C master.
pub open spec fn end_transfer<E>(run: Run<E>) -> Run<E> {
    wait_done(run).select(Bank::Bank0).modify(Register::LpConfig, I2C_MST_CYCLE, 0)
}

/// Lets slave 4 write a register of the magnetometer.
pub open spec fn send_write<E>(run: Run<E>, reg: u8, value: u8) -> Run<E> {
    begin_transfer(run).put(Register::I2cSlv4Addr, AK09916_I2C_ADDRESS).put(
        Register::I2cSlv4Reg,
        reg,
    ).put(Register::I2cSlv4Do, value).put(Register::I2cSlv4Ctrl, I2C_SLV_EN)
}

/// Writes a register of the magnetometer.
#[verifier::opaque]
pub open spec fn write_mag<E>(run: Run<E>, reg: u8, value: u8) -> Run<E> {
    end_transfer(send_write(run, reg, value))
}

/// Reads a register of the magnetometer: the run, and what the register holds.
#[verifier::opaque]
pub open spec fn read_mag<E>(run: Run<E>, reg: u8) -> (Run<E>, u8) {
    let r = end_transfer(
        begin_transfer(run).put(Register::I2cSlv4Addr, AK09916_I2C_ADDRESS | I2C_SLV_RNW).put(
            Register::I2cSlv4Reg,
            reg,
        ).put(Register::I2cSlv4Ctrl, I2C_SLV_EN),
    ).select(Bank::Bank3);
    (r.get(Register::I2cSlv4Di), r.next_byte())
}

/// Resets the I2C master, with the bypass off.
#[verifier::opaque]
pub open spec fn reset_master<E>(run: Run<E>) -> Run<E> {
    run.select(Bank::Bank0).modify(Register::IntPinCfg, BYPASS_EN, 0).modify(
        Register::UserCtrl,
        I2C_MST_EN,
        0,
    ).ms(1).modify(Register::UserCtrl, I2C_MST_RST, I2C_MST_RST).ms(10).modify(
        Register::UserCtrl,
        I2C_MST_RST,
        0,
    ).ms(1)
}

/// Turns the gyroscope on, whose clock the I2C master runs on, and wakes the chip
/// if it sleeps.
#[verifier::opaque]
pub open spec fn start_gyroscope<E>(run: Run<E>) -> Run<E> {
    let on = run.select(Bank::Bank0).modify(
        Register::PwrMgmt2,
        DISABLE_GYRO_X | DISABLE_GYRO_Y | DISABLE_GYRO_Z,
        0,
    ).ms(50);
    let sleeps = on.next_byte() & SLEEP != 0;
    let read = on.get(Register::PwrMgmt1);
    if sleeps {
        read.modify(Register::PwrMgmt1, SLEEP | CLKSEL, 1).ms(50)
    } else {
        read
    }
}

/// Turns the I2C master on, up to `attempts` times until it says that it is on,
/// and then stops its duty cycle.
#[verifier::opaque]
pub open spec fn try_master<E>(run: Run<E>, attempts: nat) -> Run<E>
    decreases attempts,
{
    let tried = run.modify(Register::UserCtrl, I2C_MST_EN, I2C_MST_EN).ms(10);
    let on = tried.next_byte() & I2C_MST_EN != 0;
    let read = tried.get(Register::UserCtrl);
    if run.failed is Some {
        run
    } else if attempts == 0 {
        run.fail(Error::Magnetometer)
    } else if on {
        read.modify(Register::LpConfig, I2C_MST_CYCLE, 0).ms(10)
    } else {
        try_master(read, (attempts - 1) as nat)
    }
}

/// Sets the clocks of the I2C master.
pub open spec fn set_master_clock<E>(run: Run<E>) -> Run<E> {
    run.modify(Register::I2cMstCtrl, I2C_MST_CLK | I2C_MST_P_NSR, 0x07 | I2C_MST_P_NSR)
}

/// Sets the rates and clocks of the I2C master.
#[verifier::opaque]
pub open spec fn set_master_timing<E>(run: Run<E>) -> Run<E> {
    set_master_clock(
        run.select(Bank::Bank2).put(Register::GyroSmplrtDiv, 0).select(Bank::Bank3).put(
            Register::I2cMstOdrConfig,
            0x04,
        ),
    ).put(Register::I2cMstDelayCtrl, 0).ms(10)
}

/// Resets the I2C master and sets it up again.
#[verifier::opaque]
pub open spec fn restart_master<E>(run: Run<E>) -> Run<E> {
    set_master_clock(
        reset_master(run).modify(Register::UserCtrl, I2C_MST_EN, I2C_MST_EN).ms(10).select(
            Bank::Bank3,
        ),
    ).ms(10)
}

/// Asks the magnetometer who it is, up to `attempts` times until it gives the
/// expected answer, and restarts the I2C master before each further attempt. A
/// question that fails counts as one without the expected answer.
#[verifier::opaque]
pub open spec fn identify<E>(run: Run<E>, reg: u8, expected: u8, attempts: nat) -> Run<E>
    decreases attempts,
{
    let (asked, answer) = read_mag(run, reg);
    if run.failed is Some {
        run
    } else if attempts == 0 {
        run.fail(Error::Magnetometer)
    } else if asked.ok() && answer == expected {
        asked
    } else if attempts == 1 {
        asked.forgive().fail(Error::Magnetometer)
    } else {
        identify(restart_master(asked.forgive()), reg, expected, (attempts - 1) as nat)
    }
}

/// Lets slave 0 read nine bytes from the magnetometer over and over.
#[verifier::opaque]
pub open spec fn set_slave0<E>(run: Run<E>, address: u8, start: u8) -> Run<E> {
    run.put(Register::I2cSlv0Addr, address | I2C_SLV_RNW).put(Register::I2cSlv0Reg, start).put(
        Register::I2cSlv0Ctrl,
        I2C_SLV_EN | 9,
    )
}

/// From now on the driver knows that the magnetometer is set up.
pub open spec fn mark_initialized<E>(run: Run<E>) -> Run<E> {
    run.remember(State { mag_initialized: true, ..run.state() })
}

/// Turns the I2C master on, after a reset.
pub open spec fn turn_on_master<E>(run: Run<E>) -> Run<E> {
    try_master(start_gyroscope(reset_master(run)).select(Bank::Bank0), 5)
}

/// Turns the I2C master on and resets the magnetometer.
pub open spec fn wake<E>(run: Run<E>) -> Run<E> {
    write_mag(set_master_timing(turn_on_master(run)), AK09916_REG_CNTL3, 0x01).ms(100)
}

/// Lets slave 0 read the magnetometer from its first status register on.
pub open spec fn point_slave0<E>(run: Run<E>) -> Run<E> {
    set_slave0(run, AK09916_I2C_ADDRESS, AK09916_REG_ST1).ms(10)
}

/// Sets the mode of a magnetometer that was found, and lets it be read.
pub open spec fn start_reading<E>(run: Run<E>, mode: MagMode) -> Run<E> {
    mark_initialized(
        write_mag(point_slave0(run), AK09916_REG_CNTL2, mode.code()).ms(10).select(
            Bank::Bank0,
        ).modify(Register::LpConfig, I2C_MST_CYCLE, I2C_MST_CYCLE).ms(10),
    )
}

/// Sets the magnetometer up.
pub open spec fn set_up<E>(run: Run<E>, mode: MagMode) -> Run<E> {
    start_reading(
        identify(wake(run), AK09916_REG_WIA2, AK09916_WIA2_VALUE, MAX_STARTS as nat),
        mode,
    )
}

/// The register that holds byte `i` of what slave 0 read last.
pub open spec fn spec_slave_register(i: int) -> Register {
    if i == 0 {
        Register::ExtSlvSensData00
    } else if i == 1 {
        Register::ExtSlvSensData01
    } else if i == 2 {
        Register::ExtSlvSensData02
    } else if i == 3 {
        Register::ExtSlvSensData03
    } else if i == 4 {
        Register::ExtSlvSensData04
    } else if i == 5 {
        Register::ExtSlvSensData05
    } else if i == 6 {
        Register::ExtSlvSensData06
    } else if i == 7 {
        Register::ExtSlvSensData07
    } else {
        Register::ExtSlvSensData08
    }
}

/// The register that holds byte `i` of what slave 0 read last.
fn slave_register(i: usize) -> (register: Register)
    ensures
        register == spec_slave_register(i as int),
        register != Register::RegBankSel,
        register.bank() == Bank::Bank0,
{
    match i {
        0 => Register::ExtSlvSensData00,
        1 => Register::ExtSlvSensData01,
        2 => Register::ExtSlvSensData02,
        3 => Register::ExtSlvSensData03,
        4 => Register::ExtSlvSensData04,
        5 => Register::ExtSlvSensData05,
        6 => Register::ExtSlvSensData06,
        7 => Register::ExtSlvSensData07,
        _ => Register::ExtSlvSensData08,
    }
}

/// Reads the bytes of slave 0 one by one, from number `bytes.len()` up to `to`:
/// the run, and the bytes with those before them.
pub open spec fn slave_bytes<E>(run: Run<E>, bytes: Seq<u8>, to: nat) -> (Run<E>, Seq<u8>)
    decreases to - bytes.len(),
{
    if run.failed is Some || bytes.len() >= to {
        (run, bytes)
    } else {
        slave_bytes(
            run.get(spec_slave_register(bytes.len() as int)),
            bytes.push(run.next_byte()),
            to,
        )
    }
}

/// The reading in what slave 0 read, from byte `first` on: the three axes, the low
/// byte of each first.
pub open spec fn mag_of(bytes: Seq<u8>, first: int) -> MagData {
    MagData {
        x: signed16(bytes[first + 1], bytes[first]),
        y: signed16(bytes[first + 3], bytes[first + 2]),
        z: signed16(bytes[first + 5], bytes[first + 4]),
    }
}

/// Reads `len` bytes of slave 0, eight or more, and takes the reading from them,
/// which begins at byte `first`: the run, and the reading. The call fails before the
/// magnetometer was set up, and when the eighth byte, the second status byte, tells of
/// an overflow.
pub open spec fn measure<E>(run: Run<E>, len: nat, first: int) -> (Run<E>, MagData) {
    let (read, bytes) = slave_bytes(run.select(Bank::Bank0), Seq::empty(), len);
    if !run.state().mag_initialized {
        (run.fail(Error::Magnetometer), mag_of(bytes, first))
    } else if bytes[7] & OVERFLOW != 0 {
        (read.fail(Error::Magnetometer), mag_of(bytes, first))
    } else {
        (read, mag_of(bytes, first))
    }
}

/// A reading, and the calibration that it is to be taken with: in microtesla, each axis
/// has its offset taken off and is then multiplied by its factor.
#[derive(Debug, Clone, Copy, PartialEq, Eq, Structural)]
pub struct MagReading {
    /// X axis, in counts of 0.15 microtesla.
    pub x: i16,
    /// Y axis, in counts of 0.15 microtesla.
    pub y: i16,
    /// Z axis, in counts of 0.15 microtesla.
    pub z: i16,
    /// The calibration.
    pub calibration: MagCalibration,
}

/// The reading that `data` is under the calibration that the driver remembers.
pub open spec fn calibrated(data: MagData, state: State) -> MagReading {
    MagReading { x: data.x, y: data.y, z: data.z, calibration: state.mag_calibration }
}

/// Reads the magnetometer from all nine bytes that slave 0 read: the run, and the reading
/// with its calibration.
pub open spec fn read<E>(run: Run<E>) -> (Run<E>, MagReading) {
    let (measured, data) = measure(run, 9, 1);
    (measured, calibrated(data, run.state()))
}

/// Reads the magnetometer from the first eight bytes that slave 0 read: the run, and the
/// three axes.
pub open spec fn read_raw<E>(run: Run<E>) -> (Run<E>, (i16, i16, i16)) {
    let (measured, data) = measure(run, 8, 1);
    (measured, (data.x, data.y, data.z))
}

/// Asks whether the magnetometer has a new reading: the run, and the answer. Before it
/// was set up it has none, and it is not asked.
pub open spec fn data_ready<E>(run: Run<E>) -> (Run<E>, bool) {
    let r = run.select(Bank::Bank0);
    if run.state().mag_initialized {
        (r.get(Register::ExtSlvSensData00), r.next_byte() & 0x01 != 0)
    } else {
        (run, false)
    }
}

/// Whether a self-test reading is good: not zero on every axis, and at the end of
/// the range on none.
pub open spec fn good_self_test(data: MagData) -> bool {
    &&& data.x != 0 || data.y != 0 || data.z != 0
    &&& -32767 < data.x < 32767
    &&& -32767 < data.y < 32767
    &&& -32767 < data.z < 32767
}

/// Whether a self-test reading is good.
pub(crate) fn check_self_test(x: i16, y: i16, z: i16) -> (good: bool)
    ensures
        good == good_self_test(MagData { x, y, z }),
{
    (x != 0 || y != 0 || z != 0) && -32767 < x && x < 32767 && -32767 < y && y < 32767 && -32767
        < z && z < 32767
}

/// Runs the self-test: the run, and the self-test reading.
pub open spec fn self_test<E>(run: Run<E>) -> (Run<E>, MagData) {
    let (measured, data) = measure(
        write_mag(run, AK09916_REG_CNTL2, 0x10).ms(100).select(Bank::Bank3).put(
            Register::I2cSlv0Reg,
            AK09916_REG_HXL,
        ).ms(10),
        8,
        1,
    );
    (write_mag(measured, AK09916_REG_CNTL2, 0x08).ms(10), data)
}

/// Takes readings ten milliseconds apart, up to `count` with those in `data`: the
/// run, and all the readings.
pub open spec fn sample<E>(
    run: Run<E>,
    data: Seq<MagReading>,
    count: nat,
) -> (Run<E>, Seq<MagReading>)
    decreases count - data.len(),
{
    if run.failed is Some || data.len() >= count {
        (run, data)
    } else {
        let (measured, reading) = measure(run, 9, 1);
        sample(measured.ms(10), data.push(calibrated(reading, run.state())), count)
    }
}

/// Asks the magnetometer once who it is, with slave 4 and without the I2C master's
/// duty cycle: the run, and the answer.
pub open spec fn ask_once<E>(run: Run<E>) -> (Run<E>, u8) {
    let r = wait_done(
        run.select(Bank::Bank3).put(Register::I2cSlv4Addr, AK09916_I2C_ADDRESS | I2C_SLV_RNW).put(
            Register::I2cSlv4Reg,
            AK09916_REG_WIA2,
        ).put(Register::I2cSlv4Ctrl, I2C_SLV_EN),
    ).select(Bank::Bank3);
    (r.get(Register::I2cSlv4Di), r.next_byte())
}

/// Lets slave 0 read ten bytes for the motion processor and slave 1 start a
/// measurement, about 69 times a second.
#[verifier::opaque]
pub open spec fn set_slaves_for_dmp<E>(run: Run<E>) -> Run<E> {
    run.select(Bank::Bank3).put(Register::I2cSlv0Addr, AK09916_I2C_ADDRESS | I2C_SLV_RNW).put(
        Register::I2cSlv0Reg,
        AK09916_REG_RSV2,
    ).put(Register::I2cSlv0Ctrl, I2C_SLV_EN | I2C_SLV_BYTE_SW | I2C_SLV_GRP | 10).put(
        Register::I2cSlv1Addr,
        AK09916_I2C_ADDRESS,
    ).put(Register::I2cSlv1Reg, AK09916_REG_CNTL2).put(Register::I2cSlv1Do, 0x01).put(
        Register::I2cSlv1Ctrl,
        I2C_SLV_EN | 1,
    ).put(Register::I2cMstOdrConfig, 0x04)
}

/// Sets the magnetometer up for the motion processor. If it does not answer as
/// expected, the I2C master is turned off again and the call fails.
pub open spec fn set_up_for_dmp<E>(run: Run<E>) -> Run<E> {
    let (asked, answer) = ask_once(
        run.select(Bank::Bank0).modify(Register::UserCtrl, I2C_MST_EN, I2C_MST_EN).ms(10).select(
            Bank::Bank3,
        ).put(Register::I2cMstCtrl, 0x07),
    );
    if answer != AK09916_WIA2_VALUE {
        asked.select(Bank::Bank0).modify(Register::UserCtrl, I2C_MST_EN, 0).fail(
            Error::Magnetometer,
        )
    } else {
        mark_initialized(
            set_slaves_for_dmp(write_mag(asked, AK09916_REG_CNTL3, 0x01).ms(100)).select(
                Bank::Bank0,
            ).modify(Register::LpConfig, I2C_MST_CYCLE, I2C_MST_CYCLE).ms(50),
        )
    }
}

/// Waiting for a transfer ends: the I2C master is asked at most [`MAX_RETRIES`] + 2
/// times, with at most [`MAX_RETRIES`] + 1 pauses in between, and the bank is selected
/// with at most one access.
pub proof fn wait_is_bounded<E>(run: Run<E>)
    ensures
        wait_done(run).m.slept.len() <= run.m.slept.len() + MAX_RETRIES + 1,
        wait_done(run).m.bus.len() <= run.m.bus.len() + MAX_RETRIES + 3,
{
    reveal(Run::select);
    reveal(Run::put);
    reveal(Run::remember);
    lemma_poll_bounded(run.select(Bank::Bank0), 0);
}

proof fn lemma_poll_bounded<E>(run: Run<E>, retries: int)
    requires
        0 <= retries <= MAX_RETRIES + 1,
    ensures
        poll_done(run, retries).m.slept.len() <= run.m.slept.len() + MAX_RETRIES + 1 - retries,
        poll_done(run, retries).m.bus.len() <= run.m.bus.len() + MAX_RETRIES + 2 - retries,
    decreases MAX_RETRIES + 1 - retries,
{
    reveal(Run::read);
    reveal(Run::pause);
    reveal(Run::fail);
    if retries <= MAX_RETRIES {
        lemma_poll_bounded(run.get(Register::I2cMstStatus).ms(1), retries + 1);
    }
}

/// After a failure a sequence stays where it is.
broadcast proof fn lemma_failed_write_mag<E>(run: Run<E>, reg: u8, value: u8)
    requires
        run.failed is Some,
    ensures
        #[trigger] write_mag(run, reg, value) == run,
{
    reveal(write_mag);
}

/// After a failure a sequence stays where it is.
broadcast proof fn lemma_failed_reset_master<E>(run: Run<E>)
    requires
        run.failed is Some,
    ensures
        #[trigger] reset_master(run) == run,
{
    reveal(reset_master);
}

/// After a failure a sequence stays where it is.
broadcast proof fn lemma_failed_start_gyroscope<E>(run: Run<E>)
    requires
        run.failed is Some,
    ensures
        #[trigger] start_gyroscope(run) == run,
{
    reveal(start_gyroscope);
}

/// After a failure a sequence stays where it is.
broadcast proof fn lemma_failed_try_master<E>(run: Run<E>, attempts: nat)
    requires
        run.failed is Some,
    ensures
        #[trigger] try_master(run, attempts) == run,
{
    reveal(try_master);
}

/// After a failure a sequence stays where it is.
broadcast proof fn lemma_failed_set_master_timing<E>(run: Run<E>)
    requires
        run.failed is Some,
    ensures
        #[trigger] set_master_timing(run) == run,
{
    reveal(set_master_timing);
}

/// After a failure a sequence stays where it is.
broadcast proof fn lemma_failed_restart_master<E>(run: Run<E>)
    requires
        run.failed is Some,
    ensures
        #[trigger] restart_master(run) == run,
{
    reveal(restart_master);
    reveal(reset_master);
}

/// After a failure a sequence stays where it is.
broadcast proof fn lemma_failed_identify<E>(run: Run<E>, reg: u8, expected: u8, attempts: nat)
    requires
        run.failed is Some,
    ensures
        #[trigger] identify(run, reg, expected, attempts) == run,
{
    reveal(identify);
}

/// After a failure a sequence stays where it is.
broadcast proof fn lemma_failed_set_slave0<E>(run: Run<E>, address: u8, start: u8)
    requires
        run.failed is Some,
    ensures
        #[trigger] set_slave0(run, address, start) == run,
{
    reveal(set_slave0);
}

/// After a failure a sequence stays where it is.
pub broadcast proof fn lemma_failed_set_slaves_for_dmp<E>(run: Run<E>)
    requires
        run.failed is Some,
    ensures
        #[trigger] set_slaves_for_dmp(run) == run,
{
    reveal(set_slaves_for_dmp);
}

broadcast group group_failed {
    lemma_failed_write_mag,
    lemma_failed_reset_master,
    lemma_failed_start_gyroscope,
    lemma_failed_try_master,
    lemma_failed_set_master_timing,
    lemma_failed_restart_master,
    lemma_failed_identify,
    lemma_failed_set_slave0,
    lemma_failed_set_slaves_for_dmp,
}

impl<I: Interface> Icm20948Driver<I> {
    /// Waits until the transfer of slave 4 is done.
    fn wait_for_i2c_slv4_done<D: Delay>(&mut self, delay: &mut D) -> (res: Result<
        (),
        Error<I::Error>,
    >)
        ensures
            wait_done(old(self)@.run()).ends(final(self)@, res),
            res is Ok ==> old(self)@.moved_to(final(self)@, Bank::Bank0),
            old(self)@.waited(final(self)@, old(delay).log(), final(delay).log()),
    {
        proof {
            script::lemma_since_start(self@, delay.log());
        }
        self.select_bank(Bank::Bank0)?;
        let ghost selected = self@;
        let mut retries: u32 = 0;
        loop
            invariant
                selected == old(self)@.run().select(Bank::Bank0).m,
                old(self)@.run().select(Bank::Bank0).ok(),
                old(self)@.moved_to(self@, Bank::Bank0),
                retries <= MAX_RETRIES + 1,
                poll_done(selected.run(), 0) == poll_done(self@.run(), retries as int),
                script::since(old(self)@, self@, old(delay).log(), delay.log()),
            decreases MAX_RETRIES + 1 - retries,
        {
            proof {
                reveal_with_fuel(poll_done, 2);
                reveal(Run::fail);
            }
            let status: u8 = self.get(Register::I2cMstStatus)?;
            if status & (I2C_SLV4_NACK | I2C_LOST_ARB) != 0 {
                return Err(Error::Magnetometer);
            }
            if status & I2C_SLV4_DONE != 0 {
                return Ok(());
            }
            if retries > MAX_RETRIES {
                return Err(Error::Magnetometer);
            }
            self.pause_ms(delay, 1);
            retries += 1;
        }
    }

    /// Clears the status of the last transfer and sets the I2C master going.
    fn begin_transfer<D: Delay>(&mut self, delay: &mut D) -> (res: Result<(), Error<I::Error>>)
        ensures
            begin_transfer(old(self)@.run()).ends(final(self)@, res),
            res is Ok ==> old(self)@.moved_to(final(self)@, Bank::Bank3),
            old(self)@.waited(final(self)@, old(delay).log(), final(delay).log()),
    {
        proof {
            script::lemma_since_start(self@, delay.log());
        }
        self.select_bank(Bank::Bank0)?;
        self.get(Register::I2cMstStatus)?;
        self.modify(Register::LpConfig, I2C_MST_CYCLE, I2C_MST_CYCLE)?;
        self.pause_ms(delay, 1);
        self.select_bank(Bank::Bank3)
    }

    /// Waits for a transfer and stops the I2C master.
    fn end_transfer<D: Delay>(&mut self, delay: &mut D) -> (res: Result<(), Error<I::Error>>)
        ensures
            end_transfer(old(self)@.run()).ends(final(self)@, res),
            res is Ok ==> old(self)@.moved_to(final(self)@, Bank::Bank0),
            old(self)@.waited(final(self)@, old(delay).log(), final(delay).log()),
    {
        proof {
            script::lemma_since_start(self@, delay.log());
        }
        self.wait_for_i2c_slv4_done(delay)?;
        self.select_bank(Bank::Bank0)?;
        self.modify(Register::LpConfig, I2C_MST_CYCLE, 0)
    }

    /// Writes a register of the magnetometer with slave 4.
    fn write_mag_register<D: Delay>(&mut self, reg: u8, value: u8, delay: &mut D) -> (res: Result<
        (),
        Error<I::Error>,
    >)
        ensures
            write_mag(old(self)@.run(), reg, value).ends(final(self)@, res),
            res is Ok ==> old(self)@.moved_to(final(self)@, Bank::Bank0),
            old(self)@.waited(final(self)@, old(delay).log(), final(delay).log()),
    {
        broadcast use group_failed;

        proof {
            reveal(write_mag);
            script::lemma_since_start(self@, delay.log());
        }
        self.begin_transfer(delay)?;
        self.put(Register::I2cSlv4Addr, AK09916_I2C_ADDRESS)?;
        self.put(Register::I2cSlv4Reg, reg)?;
        self.put(Register::I2cSlv4Do, value)?;
        self.put(Register::I2cSlv4Ctrl, I2C_SLV_EN)?;
        self.end_transfer(delay)
    }

    /// Reads a register of the magnetometer with slave 4.
    fn read_mag_register<D: Delay>(&mut self, reg: u8, delay: &mut D) -> (res: Result<
        u8,
        Error<I::Error>,
    >)
        ensures
            read_mag(old(self)@.run(), reg).0.yields(
                final(self)@,
                res,
                read_mag(old(self)@.run(), reg).1,
            ),
            res is Ok ==> old(self)@.moved_to(final(self)@, Bank::Bank3),
            old(self)@.waited(final(self)@, old(delay).log(), final(delay).log()),
    {
        broadcast use group_failed;

        proof {
            reveal(read_mag);
            script::lemma_since_start(self@, delay.log());
        }
        self.begin_transfer(delay)?;
        self.put(Register::I2cSlv4Addr, AK09916_I2C_ADDRESS | I2C_SLV_RNW)?;
        self.put(Register::I2cSlv4Reg, reg)?;
        self.put(Register::I2cSlv4Ctrl, I2C_SLV_EN)?;
        self.end_transfer(delay)?;
        self.select_bank(Bank::Bank3)?;
        self.get(Register::I2cSlv4Di)
    }

    /// Resets the I2C master, with the bypass off.
    fn reset_i2c_master<D: Delay>(&mut self, delay: &mut D) -> (res: Result<(), Error<I::Error>>)
        ensures
            reset_master(old(self)@.run()).ends(final(self)@, res),
            res is Ok ==> old(self)@.moved_to(final(self)@, Bank::Bank0),
            old(self)@.waited(final(self)@, old(delay).log(), final(delay).log()),
    {
        proof {
            reveal(reset_master);
            script::lemma_since_start(self@, delay.log());
        }
        self.select_bank(Bank::Bank0)?;
        self.modify(Register::IntPinCfg, BYPASS_EN, 0)?;
        self.modify(Register::UserCtrl, I2C_MST_EN, 0)?;
        self.pause_ms(delay, 1);
        self.modify(Register::UserCtrl, I2C_MST_RST, I2C_MST_RST)?;
        self.pause_ms(delay, 10);
        self.modify(Register::UserCtrl, I2C_MST_RST, 0)?;
        self.pause_ms(delay, 1);
        Ok(())
    }

    /// Turns the gyroscope on, whose clock the I2C master runs on.
    fn enable_gyroscope_for_i2c_master<D: Delay>(&mut self, delay: &mut D) -> (res: Result<
        (),
        Error<I::Error>,
    >)
        ensures
            start_gyroscope(old(self)@.run()).ends(final(self)@, res),
            res is Ok ==> old(self)@.moved_to(final(self)@, Bank::Bank0),
            old(self)@.waited(final(self)@, old(delay).log(), final(delay).log()),
    {
        proof {
            reveal(start_gyroscope);
            script::lemma_since_start(self@, delay.log());
        }
        self.select_bank(Bank::Bank0)?;
        self.modify(Register::PwrMgmt2, DISABLE_GYRO_X | DISABLE_GYRO_Y | DISABLE_GYRO_Z, 0)?;
        self.pause_ms(delay, 50);
        let pwr_mgmt_1: u8 = self.get(Register::PwrMgmt1)?;
        if pwr_mgmt_1 & SLEEP != 0 {
            self.modify(Register::PwrMgmt1, SLEEP | CLKSEL, 1)?;
            self.pause_ms(delay, 50);
        }
        Ok(())
    }

    /// Turns the I2C master on and makes sure that it is.
    fn enable_i2c_master_mode<D: Delay>(&mut self, delay: &mut D) -> (res: Result<
        (),
        Error<I::Error>,
    >)
        ensures
            try_master(old(self)@.run().select(Bank::Bank0), 5).ends(final(self)@, res),
            res is Ok ==> old(self)@.moved_to(final(self)@, Bank::Bank0),
            old(self)@.waited(final(self)@, old(delay).log(), final(delay).log()),
    {
        broadcast use group_failed;

        proof {
            script::lemma_since_start(self@, delay.log());
        }
        self.select_bank(Bank::Bank0)?;
        let ghost selected = self@;
        let mut left: u8 = 5;
        while left > 0
            invariant
                left <= 5,
                selected == old(self)@.run().select(Bank::Bank0).m,
                old(self)@.run().select(Bank::Bank0).ok(),
                old(self)@.moved_to(self@, Bank::Bank0),
                try_master(selected.run(), 5) == try_master(self@.run(), left as nat),
                script::since(old(self)@, self@, old(delay).log(), delay.log()),
            decreases left,
        {
            proof {
                reveal_with_fuel(try_master, 2);
            }
            self.modify(Register::UserCtrl, I2C_MST_EN, I2C_MST_EN)?;
            self.pause_ms(delay, 10);
            let user_ctrl: u8 = self.get(Register::UserCtrl)?;
            if user_ctrl & I2C_MST_EN != 0 {
                self.modify(Register::LpConfig, I2C_MST_CYCLE, 0)?;
                self.pause_ms(delay, 10);
                return Ok(());
            }
            left -= 1;
        }
        proof {
            reveal(try_master);
            reveal(Run::fail);
        }
        Err(Error::Magnetometer)
    }

    /// Sets the rates and clocks of the I2C master.
    fn configure_i2c_master_timing<D: Delay>(&mut self, delay: &mut D) -> (res: Result<
        (),
        Error<I::Error>,
    >)
        ensures
            set_master_timing(old(self)@.run()).ends(final(self)@, res),
            res is Ok ==> old(self)@.moved_to(final(self)@, Bank::Bank3),
            old(self)@.waited(final(self)@, old(delay).log(), final(delay).log()),
    {
        proof {
            reveal(set_master_timing);
            script::lemma_since_start(self@, delay.log());
        }
        self.select_bank(Bank::Bank2)?;
        self.put(Register::GyroSmplrtDiv, 0)?;
        self.select_bank(Bank::Bank3)?;
        self.put(Register::I2cMstOdrConfig, 0x04)?;
        self.modify(Register::I2cMstCtrl, I2C_MST_CLK | I2C_MST_P_NSR, 0x07 | I2C_MST_P_NSR)?;
        self.put(Register::I2cMstDelayCtrl, 0)?;
        self.pause_ms(delay, 10);
        Ok(())
    }

    /// Resets the I2C master and sets it up again.
    fn reset_and_reconfigure_i2c_master<D: Delay>(&mut self, delay: &mut D) -> (res: Result<
        (),
        Error<I::Error>,
    >)
        ensures
            restart_master(old(self)@.run()).ends(final(self)@, res),
            res is Ok ==> old(self)@.moved_to(final(self)@, Bank::Bank3),
            old(self)@.waited(final(self)@, old(delay).log(), final(delay).log()),
    {
        broadcast use group_failed;

        proof {
            reveal(restart_master);
            script::lemma_since_start(self@, delay.log());
        }
        self.reset_i2c_master(delay)?;
        self.modify(Register::UserCtrl, I2C_MST_EN, I2C_MST_EN)?;
        self.pause_ms(delay, 10);
        self.select_bank(Bank::Bank3)?;
        self.modify(Register::I2cMstCtrl, I2C_MST_CLK | I2C_MST_P_NSR, 0x07 | I2C_MST_P_NSR)?;
        self.pause_ms(delay, 10);
        Ok(())
    }

    /// Asks the magnetometer who it is until it gives the expected answer.
    fn verify_magnetometer_with_retry<D: Delay>(
        &mut self,
        who_am_i_reg: u8,
        expected_value: u8,
        max_attempts: u8,
        delay: &mut D,
    ) -> (res: Result<(), Error<I::Error>>)
        ensures
            identify(old(self)@.run(), who_am_i_reg, expected_value, max_attempts as nat).ends(
                final(self)@,
                res,
            ),
            res is Ok ==> final(self)@.state.bank == Some(Bank::Bank3),
            old(self)@.waited(final(self)@, old(delay).log(), final(delay).log()),
    {
        broadcast use group_failed;

        proof {
            script::lemma_since_start(self@, delay.log());
        }
        let mut left: u8 = max_attempts;
        while left > 0
            invariant
                left <= max_attempts,
                identify(old(self)@.run(), who_am_i_reg, expected_value, max_attempts as nat)
                    == identify(self@.run(), who_am_i_reg, expected_value, left as nat),
                script::since(old(self)@, self@, old(delay).log(), delay.log()),
            decreases left,
        {
            proof {
                reveal_with_fuel(identify, 2);
            }
            match self.read_mag_register(who_am_i_reg, delay) {
                Ok(who_am_i) => {
                    if who_am_i == expected_value {
                        return Ok(());
                    }
                },
                Err(_) => {},
            }
            if left > 1 {
                self.reset_and_reconfigure_i2c_master(delay)?;
            }
            left -= 1;
        }
        proof {
            reveal(identify);
            reveal(Run::fail);
        }
        Err(Error::Magnetometer)
    }

    /// Lets slave 0 read nine bytes from the magnetometer over and over: the
    /// first status byte, the three axes, the second status byte and one more.
    fn configure_slave0_for_magnetometer(&mut self, mag_address: u8, start_reg: u8) -> (res: Result<
        (),
        Error<I::Error>,
    >)
        requires
            old(self)@.state.bank == Some(Bank::Bank3),
        ensures
            set_slave0(old(self)@.run(), mag_address, start_reg).ends(final(self)@, res),
            final(self)@.state == old(self)@.state,
            old(self)@.at_once(final(self)@),
    {
        proof {
            reveal(set_slave0);
        }
        self.put(Register::I2cSlv0Addr, mag_address | I2C_SLV_RNW)?;
        self.put(Register::I2cSlv0Reg, start_reg)?;
        self.put(Register::I2cSlv0Ctrl, I2C_SLV_EN | 9)
    }

    /// From now on the driver knows that the magnetometer is set up.
    pub(crate) fn mark_initialized(&mut self)
        ensures
            mark_initialized(old(self)@.run()) == final(self)@.run(),
            final(self)@.state == (State { mag_initialized: true, ..old(self)@.state }),
            old(self)@.in_order(final(self)@),
    {
        let state = self.state();
        self.remember(State { mag_initialized: true, ..state });
    }

    /// Sets the magnetometer up: resets the I2C master, wakes what it needs,
    /// resets the magnetometer, asks it who it is, lets slave 0 read it and
    /// starts its measurements.
    pub fn init_magnetometer<D: Delay>(&mut self, config: MagConfig, delay: &mut D) -> (res: Result<
        (),
        Error<I::Error>,
    >)
        ensures
            set_up(old(self)@.run(), config.mode).ends(final(self)@, res),
            res is Ok ==> final(self)@.state == (State {
                bank: Some(Bank::Bank0),
                mag_initialized: true,
                ..old(self)@.state
            }),
            res is Err ==> old(self)@.kept(final(self)@),
            old(self)@.paced(final(self)@, old(delay).log(), final(delay).log()),
    {
        broadcast use group_failed;

        proof {
            script::lemma_since_start(self@, delay.log());
        }
        self.reset_i2c_master(delay)?;
        self.enable_gyroscope_for_i2c_master(delay)?;
        self.enable_i2c_master_mode(delay)?;
        self.configure_i2c_master_timing(delay)?;
        self.write_mag_register(AK09916_REG_CNTL3, 0x01, delay)?;
        self.pause_ms(delay, 100);
        self.verify_magnetometer_with_retry(
            AK09916_REG_WIA2,
            AK09916_WIA2_VALUE,
            MAX_STARTS,
            delay,
        )?;
        self.configure_slave0_for_magnetometer(AK09916_I2C_ADDRESS, AK09916_REG_ST1)?;
        self.pause_ms(delay, 10);
        self.write_mag_register(AK09916_REG_CNTL2, config.mode.code(), delay)?;
        self.pause_ms(delay, 10);
        self.select_bank(Bank::Bank0)?;
        self.modify(Register::LpConfig, I2C_MST_CYCLE, I2C_MST_CYCLE)?;
        self.pause_ms(delay, 10);
        self.mark_initialized();
        Ok(())
    }

    /// Reads `len` bytes of slave 0.
    fn read_slave_bytes(&mut self, len: usize) -> (res: Result<Vec<u8>, Error<I::Error>>)
        requires
            old(self)@.state.bank == Some(Bank::Bank0),
            len <= 9,
        ensures
            ({
                let (read, bytes) = slave_bytes(old(self)@.run(), Seq::empty(), len as nat);
                &&& final(self)@ == read.m
                &&& match res {
                    Ok(data) => read.ok() && data@ == bytes && bytes.len() == len,
                    Err(error) => read.failed == Some(error),
                }
            }),
            final(self)@.state == old(self)@.state,
            old(self)@.at_once(final(self)@),
    {
        let mut data: Vec<u8> = Vec::new();
        while data.len() < len
            invariant
                self@.state.bank == Some(Bank::Bank0),
                data@.len() <= len <= 9,
                slave_bytes(old(self)@.run(), Seq::empty(), len as nat) == slave_bytes(
                    self@.run(),
                    data@,
                    len as nat,
                ),
                self@.state == old(self)@.state,
                old(self)@.at_once(self@),
            decreases len - data@.len(),
        {
            proof {
                reveal_with_fuel(slave_bytes, 2);
            }
            let value: u8 = self.get(slave_register(data.len()))?;
            data.push(value);
        }
        Ok(data)
    }

    /// Reads `len` bytes of slave 0 and takes the reading from them, which begins at
    /// byte `first`.
    pub(crate) fn measure(&mut self, len: usize, first: usize) -> (res: Result<
        MagData,
        Error<I::Error>,
    >)
        requires
            8 <= len <= 9,
            first <= 1,
        ensures
            measure(old(self)@.run(), len as nat, first as int).0.yields(
                final(self)@,
                res,
                measure(old(self)@.run(), len as nat, first as int).1,
            ),
            res is Ok ==> old(self)@.moved_to(final(self)@, Bank::Bank0),
            old(self)@.at_once(final(self)@),
    {
        proof {
            reveal(Run::fail);
        }
        if !self.state().mag_initialized {
            return Err(Error::Magnetometer);
        }
        self.select_bank(Bank::Bank0)?;
        let data: Vec<u8> = self.read_slave_bytes(len)?;
        if data[7] & OVERFLOW != 0 {
            return Err(Error::Magnetometer);
        }
        Ok(
            MagData {
                x: join_signed16(data[first + 1], data[first]),
                y: join_signed16(data[first + 3], data[first + 2]),
                z: join_signed16(data[first + 5], data[first + 4]),
            },
        )
    }

    /// Reads the magnetometer from all nine bytes that slave 0 read. The result is in
    /// counts, with the calibration that it is to be taken with.
    pub fn read_magnetometer(&mut self) -> (res: Result<MagReading, Error<I::Error>>)
        ensures
            ({
                let (run, value) = read(old(self)@.run());
                run.yields(final(self)@, res, value)
            }),
            res is Ok ==> old(self)@.moved_to(final(self)@, Bank::Bank0),
            old(self)@.at_once(final(self)@),
    {
        let data = self.measure(9, 1)?;
        Ok(self.with_calibration(data))
    }

    /// A reading under the calibration that the driver remembers.
    pub(crate) fn with_calibration(&self, data: MagData) -> (reading: MagReading)
        ensures
            reading == calibrated(data, self@.state),
    {
        let calibration = self.state().mag_calibration;
        MagReading { x: data.x, y: data.y, z: data.z, calibration }
    }

    /// Reads the magnetometer, in counts, from the first eight bytes that slave 0
    /// read.
    pub fn read_magnetometer_raw(&mut self) -> (res: Result<(i16, i16, i16), Error<I::Error>>)
        ensures
            ({
                let (run, value) = read_raw(old(self)@.run());
                run.yields(final(self)@, res, value)
            }),
            res is Ok ==> old(self)@.moved_to(final(self)@, Bank::Bank0),
            old(self)@.at_once(final(self)@),
    {
        let data = self.measure(8, 1)?;
        Ok((data.x, data.y, data.z))
    }

    /// Whether the magnetometer has a new reading. Before it was set up it has
    /// none.
    pub fn magnetometer_data_ready(&mut self) -> (res: Result<bool, Error<I::Error>>)
        ensures
            ({
                let (run, value) = data_ready(old(self)@.run());
                run.yields(final(self)@, res, value)
            }),
            old(self)@.at_once(final(self)@),
    {
        if !self.state().mag_initialized {
            return Ok(false);
        }
        self.select_bank(Bank::Bank0)?;
        let st1: u8 = self.get(Register::ExtSlvSensData00)?;
        Ok(st1 & 0x01 != 0)
    }

    /// Runs the magnetometer's self-test and returns whether its reading was
    /// good. Afterwards the magnetometer measures a hundred times a second.
    pub fn magnetometer_self_test<D: Delay>(&mut self, delay: &mut D) -> (res: Result<
        bool,
        Error<I::Error>,
    >)
        ensures
            ({
                let (run, data) = self_test(old(self)@.run());
                run.yields(final(self)@, res, good_self_test(data))
            }),
            old(self)@.waited(final(self)@, old(delay).log(), final(delay).log()),
    {
        broadcast use group_failed;

        proof {
            script::lemma_since_start(self@, delay.log());
        }
        self.write_mag_register(AK09916_REG_CNTL2, 0x10, delay)?;
        self.pause_ms(delay, 100);
        self.select_bank(Bank::Bank3)?;
        self.put(Register::I2cSlv0Reg, AK09916_REG_HXL)?;
        self.pause_ms(delay, 10);
        let (x, y, z) = self.read_magnetometer_raw()?;
        self.write_mag_register(AK09916_REG_CNTL2, 0x08, delay)?;
        self.pause_ms(delay, 10);
        Ok(check_self_test(x, y, z))
    }

    /// Takes `num_samples` readings of the magnetometer ten milliseconds apart,
    /// for a calibration while the device is turned in all directions.
    pub fn sample_magnetometer<D: Delay>(&mut self, num_samples: usize, delay: &mut D) -> (res:
        Result<Vec<MagReading>, Error<I::Error>>)
        ensures
            ({
                let (run, data) = sample(old(self)@.run(), Seq::empty(), num_samples as nat);
                &&& final(self)@ == run.m
                &&& match res {
                    Ok(samples) => run.ok() && samples@ == data && data.len() == num_samples,
                    Err(error) => run.failed == Some(error),
                }
            }),
            old(self)@.waited(final(self)@, old(delay).log(), final(delay).log()),
    {
        proof {
            script::lemma_since_start(self@, delay.log());
        }
        let mut samples: Vec<MagReading> = Vec::new();
        while samples.len() < num_samples
            invariant
                samples@.len() <= num_samples,
                sample(old(self)@.run(), Seq::empty(), num_samples as nat) == sample(
                    self@.run(),
                    samples@,
                    num_samples as nat,
                ),
                script::since(old(self)@, self@, old(delay).log(), delay.log()),
            decreases num_samples - samples@.len(),
        {
            proof {
                reveal_with_fuel(sample, 2);
            }
            let data = self.read_magnetometer()?;
            samples.push(data);
            self.pause_ms(delay, 10);
        }
        Ok(samples)
    }

    /// Sets the calibration of the magnetometer.
    pub fn set_magnetometer_calibration(&mut self, calibration: MagCalibration)
        ensures
            ({
                let run = old(self)@.run();
                run.remember(State { mag_calibration: calibration, ..run.state() })
                    == final(self)@.run()
            }),
            final(self)@.state == (State { mag_calibration: calibration, ..old(self)@.state }),
            old(self)@.in_order(final(self)@),
    {
        let state = self.state();
        self.remember(State { mag_calibration: calibration, ..state });
    }

    /// The calibration of the magnetometer.
    pub fn magnetometer_calibration(&self) -> (calibration: MagCalibration)
        ensures
            calibration == self@.state.mag_calibration,
    {
        self.state().mag_calibration
    }

    /// Sets the magnetometer up for the motion processor, in place of
    /// [`Self::init_magnetometer`] and before [`Self::dmp_enable`].
    pub fn dmp_init_magnetometer<D: Delay>(&mut self, delay: &mut D) -> (res: Result<
        (),
        Error<I::Error>,
    >)
        ensures
            set_up_for_dmp(old(self)@.run()).ends(final(self)@, res),
            res is Ok ==> final(self)@.state == (State {
                bank: Some(Bank::Bank0),
                mag_initialized: true,
                ..old(self)@.state
            }),
            res is Err ==> old(self)@.kept(final(self)@),
            old(self)@.paced(final(self)@, old(delay).log(), final(delay).log()),
    {
        broadcast use group_failed;

        proof {
            script::lemma_since_start(self@, delay.log());
        }
        self.select_bank(Bank::Bank0)?;
        self.modify(Register::UserCtrl, I2C_MST_EN, I2C_MST_EN)?;
        self.pause_ms(delay, 10);
        self.select_bank(Bank::Bank3)?;
        self.put(Register::I2cMstCtrl, 0x07)?;
        let who_am_i: u8 = self.ask_once(delay)?;
        if who_am_i != AK09916_WIA2_VALUE {
            self.select_bank(Bank::Bank0)?;
            self.modify(Register::UserCtrl, I2C_MST_EN, 0)?;
            proof {
                reveal(Run::fail);
            }
            return Err(Error::Magnetometer);
        }
        self.write_mag_register(AK09916_REG_CNTL3, 0x01, delay)?;
        self.pause_ms(delay, 100);
        self.set_slaves_for_dmp()?;
        self.select_bank(Bank::Bank0)?;
        self.modify(Register::LpConfig, I2C_MST_CYCLE, I2C_MST_CYCLE)?;
        self.pause_ms(delay, 50);
        self.mark_initialized();
        Ok(())
    }

    /// Asks the magnetometer once who it is.
    fn ask_once<D: Delay>(&mut self, delay: &mut D) -> (res: Result<u8, Error<I::Error>>)
        ensures
            ask_once(old(self)@.run()).0.yields(
                final(self)@,
                res,
                ask_once(old(self)@.run()).1,
            ),
            res is Ok ==> old(self)@.moved_to(final(self)@, Bank::Bank3),
            old(self)@.waited(final(self)@, old(delay).log(), final(delay).log()),
    {
        proof {
            script::lemma_since_start(self@, delay.log());
        }
        self.select_bank(Bank::Bank3)?;
        self.put(Register::I2cSlv4Addr, AK09916_I2C_ADDRESS | I2C_SLV_RNW)?;
        self.put(Register::I2cSlv4Reg, AK09916_REG_WIA2)?;
        self.put(Register::I2cSlv4Ctrl, I2C_SLV_EN)?;
        self.wait_for_i2c_slv4_done(delay)?;
        self.select_bank(Bank::Bank3)?;
        self.get(Register::I2cSlv4Di)
    }

    /// Lets slave 0 read for the motion processor and slave 1 start measurements.
    pub(crate) fn set_slaves_for_dmp(&mut self) -> (res: Result<(), Error<I::Error>>)
        ensures
            set_slaves_for_dmp(old(self)@.run()).ends(final(self)@, res),
            res is Ok ==> old(self)@.moved_to(final(self)@, Bank::Bank3),
            old(self)@.at_once(final(self)@),
    {
        proof {
            reveal(set_slaves_for_dmp);
        }
        self.select_bank(Bank::Bank3)?;
        self.put(Register::I2cSlv0Addr, AK09916_I2C_ADDRESS | I2C_SLV_RNW)?;
        self.put(Register::I2cSlv0Reg, AK09916_REG_RSV2)?;
        self.put(Register::I2cSlv0Ctrl, I2C_SLV_EN | I2C_SLV_BYTE_SW | I2C_SLV_GRP | 10)?;
        self.put(Register::I2cSlv1Addr, AK09916_I2C_ADDRESS)?;
        self.put(Register::I2cSlv1Reg, AK09916_REG_CNTL2)?;
        self.put(Register::I2cSlv1Do, 0x01)?;
        self.put(Register::I2cSlv1Ctrl, I2C_SLV_EN | 1)?;
        self.put(Register::I2cMstOdrConfig, 0x04)
    }
}

} // verus!
