//! The digital motion processor: its memory, its firmware and its settings.

use vstd::prelude::*;

use crate::device::{flag, Icm20948Driver};
use crate::interface::Interface;
use crate::registers::{
    Register, ACCEL_CYCLE, ACCEL_FCHOICE, ALL_FIFOS, CLKSEL, DMP_EN, DMP_INT1_EN, DMP_RST, FIFO_EN,
    GYRO_CYCLE, GYRO_FCHOICE, I2C_MST_CYCLE, I2C_MST_EN, LP_EN, ODR_ALIGN, REG_LP_DMP_EN, SLEEP,
    SRAM_RST,
};
use crate::script;
use crate::script::Run;
use crate::{Bank, Error};

verus! {

broadcast use crate::script::group_steps;

/// Memory address of `DATA_OUT_CTL1`.
pub const DATA_OUT_CTL1: u16 = 0x0040;

/// Memory address of `DATA_OUT_CTL2`.
pub const DATA_OUT_CTL2: u16 = 0x0042;

/// Memory address of `DATA_INTR_CTL`.
pub const DATA_INTR_CTL: u16 = 0x004C;

/// Memory address of `MOTION_EVENT_CTL`.
pub const MOTION_EVENT_CTL: u16 = 0x004E;

/// Memory address of `DATA_RDY_STATUS`.
pub const DATA_RDY_STATUS: u16 = 0x008A;

/// Memory address of `FIFO_WATERMARK`.
pub const FIFO_WATERMARK: u16 = 0x01FE;

/// Memory address of the output rate of the nine-axis quaternion.
pub const ODR_QUAT9: u16 = 0x00A8;

/// Memory address of the output rate of the six-axis quaternion.
pub const ODR_QUAT6: u16 = 0x00AC;

/// Memory address of the output rate of the calibrated compass.
pub const ODR_CPASS_CALIBR: u16 = 0x00B4;

/// Memory address of the output rate of the compass.
pub const ODR_CPASS: u16 = 0x00B6;

/// Memory address of the output rate of the calibrated gyroscope.
pub const ODR_GYRO_CALIBR: u16 = 0x00B8;

/// Memory address of the output rate of the gyroscope.
pub const ODR_GYRO: u16 = 0x00BA;

/// Memory address of the output rate of the accelerometer.
pub const ODR_ACCEL: u16 = 0x00BE;

/// Memory address of the counter behind [`ODR_QUAT9`].
pub const ODR_CNTR_QUAT9: u16 = 0x0088;

/// Memory address of the counter behind [`ODR_QUAT6`].
pub const ODR_CNTR_QUAT6: u16 = 0x008C;

/// Memory address of the counter behind [`ODR_CPASS_CALIBR`].
pub const ODR_CNTR_CPASS_CALIBR: u16 = 0x0094;

/// Memory address of the counter behind [`ODR_CPASS`].
pub const ODR_CNTR_CPASS: u16 = 0x0096;

/// Memory address of the counter behind [`ODR_GYRO_CALIBR`].
pub const ODR_CNTR_GYRO_CALIBR: u16 = 0x0098;

/// Memory address of the counter behind [`ODR_GYRO`].
pub const ODR_CNTR_GYRO: u16 = 0x009A;

/// Memory address of the counter behind [`ODR_ACCEL`].
pub const ODR_CNTR_ACCEL: u16 = 0x009E;

/// The most bytes that go into the processor's memory behind one address.
pub const CHUNK: usize = 16;

/// A number as two bytes, the high one first.
pub open spec fn high_first(value: u16) -> Seq<u8> {
    seq![(value / 256) as u8, (value % 256) as u8]
}

/// The number in two bytes, the high one first.
pub open spec fn from_high_first(bytes: Seq<u8>) -> u16 {
    (256 * bytes[0] + bytes[1]) as u16
}

/// A number as two bytes, the high one first.
pub fn split_high_first(value: u16) -> (bytes: [u8; 2])
    ensures
        bytes@ == high_first(value),
{
    let bytes: [u8; 2] = [(value / 256) as u8, (value % 256) as u8];
    assert(bytes@ =~= high_first(value));
    bytes
}

/// A number survives being split into two bytes and put together again.
pub proof fn high_first_round_trip(value: u16)
    ensures
        from_high_first(high_first(value)) == value,
        high_first(value).len() == 2,
{
}

/// Pushes bytes through `MEM_R_W`, which counts the address up by itself.
pub open spec fn push_bytes<E>(run: Run<E>, data: Seq<u8>) -> Run<E>
    decreases data.len(),
{
    if run.failed is Some || data.len() == 0 {
        run
    } else {
        push_bytes(run.put(Register::MemRW, data[0]), data.skip(1))
    }
}

/// Writes `data` to the processor's memory from `address` on, in chunks of
/// [`CHUNK`] bytes, each behind its own bank and offset.
pub open spec fn write_chunks<E>(run: Run<E>, address: int, data: Seq<u8>) -> Run<E>
    decreases data.len(),
{
    if run.failed is Some || data.len() == 0 {
        run
    } else {
        let n = if data.len() < CHUNK {
            data.len() as int
        } else {
            CHUNK as int
        };
        write_chunks(
            push_bytes(
                run.put(Register::MemBankSel, (address / 256) as u8).put(
                    Register::MemStartAddr,
                    (address % 256) as u8,
                ),
                data.take(n),
            ),
            address + n,
            data.skip(n),
        )
    }
}

/// Writes `data` to the processor's memory from `address` on. Nothing happens
/// where there is no data.
pub open spec fn write_memory<E>(run: Run<E>, address: u16, data: Seq<u8>) -> Run<E> {
    if data.len() == 0 {
        run
    } else {
        write_chunks(run.select(Bank::Bank0), address as int, data)
    }
}

/// Reads the processor's memory from `address` on into `buffer`: the run, and
/// the buffer after it.
pub open spec fn read_memory<E>(run: Run<E>, address: u16, buffer: Seq<u8>) -> (Run<E>, Seq<u8>) {
    script::fill(
        run.select(Bank::Bank0).put(Register::MemBankSel, (address / 256) as u8).put(
            Register::MemStartAddr,
            (address % 256) as u8,
        ),
        Register::MemRW,
        buffer,
        0,
        buffer.len() as int,
    )
}

/// Loads firmware from memory address 0 on, sets the program's start address,
/// and sets the two registers that some chip revisions need.
pub open spec fn load_firmware<E>(run: Run<E>, firmware: Seq<u8>) -> Run<E> {
    finish_firmware(write_chunks(run.select(Bank::Bank0), 0, firmware))
}

/// Sets the program's start address, and the two registers that some chip
/// revisions need.
pub open spec fn finish_firmware<E>(run: Run<E>) -> Run<E> {
    run.select(Bank::Bank2).put(Register::PrgmStartAddrH, 0x10).put(
        Register::PrgmStartAddrL,
        0x00,
    ).select(Bank::Bank0).put(Register::HwFixDisable, 0x48).put(
        Register::SingleFifoPrioritySel,
        0xE4,
    )
}

/// Wakes the chip and its sensors and sets the sample rates that the processor
/// works with.
pub open spec fn prepare<E>(run: Run<E>) -> Run<E> {
    run.select(Bank::Bank0).modify(Register::PwrMgmt1, LP_EN | SLEEP | CLKSEL, 1).put(
        Register::LpConfig,
        0,
    ).put(Register::PwrMgmt2, 0).select(Bank::Bank2).modify(
        Register::GyroConfig1,
        GYRO_FCHOICE,
        GYRO_FCHOICE,
    ).put(Register::GyroSmplrtDiv, 0).modify(
        Register::AccelConfig,
        ACCEL_FCHOICE,
        ACCEL_FCHOICE,
    ).put(Register::AccelSmplrtDiv1, 0).put(Register::AccelSmplrtDiv2, 0).put(
        Register::OdrAlignEn,
        ODR_ALIGN,
    ).put(Register::ModCtrlUsr, REG_LP_DMP_EN).select(Bank::Bank0)
}

/// Resets the processor.
pub open spec fn reset<E>(run: Run<E>) -> Run<E> {
    run.select(Bank::Bank0).modify(Register::UserCtrl, DMP_RST, DMP_RST)
}

/// Reads a register and, if one of the bits of `mask` is set in it, clears the
/// bits of `clear`.
pub open spec fn clear_if_set<E>(run: Run<E>, register: Register, mask: u8, clear: u8) -> Run<E> {
    let value = run.next_byte();
    let then = run.get(register);
    if value & mask != 0 {
        then.modify(register, clear, 0)
    } else {
        then
    }
}

/// Makes sure that neither the chip nor a sensor is in a mode that the processor
/// cannot work in.
pub open spec fn full_power<E>(run: Run<E>) -> Run<E> {
    let cycles = clear_if_set(
        clear_if_set(run, Register::PwrMgmt1, LP_EN, LP_EN),
        Register::LpConfig,
        ACCEL_CYCLE | GYRO_CYCLE,
        ACCEL_CYCLE | GYRO_CYCLE,
    );
    let disabled = cycles.next_byte();
    let then = cycles.get(Register::PwrMgmt2);
    if disabled & ALL_AXES != 0 {
        then.put(Register::PwrMgmt2, 0)
    } else {
        then
    }
}

/// The bits of `PWR_MGMT_2` that switch the six axes off.
pub const ALL_AXES: u8 = 0x3F;

/// The bits of `FIFO_EN_2` that lead the accelerometer and the gyroscope to the
/// processor.
pub const MOTION_AXES: u8 = 0x1E;

/// Turns the processor on or off, with what belongs to it.
pub open spec fn enable<E>(run: Run<E>, on: bool, magnetometer: bool) -> Run<E> {
    let selected = run.select(Bank::Bank0);
    let powered = if on {
        full_power(selected)
    } else {
        selected
    };
    let routed = powered.modify(
        Register::UserCtrl,
        DMP_EN | FIFO_EN | I2C_MST_EN,
        flag(DMP_EN | FIFO_EN, on) | flag(I2C_MST_EN, on && magnetometer),
    ).put(Register::FifoEn2, flag(MOTION_AXES, on));
    if on {
        routed.modify(Register::LpConfig, I2C_MST_CYCLE, I2C_MST_CYCLE).modify(
            Register::IntEnable,
            DMP_INT1_EN,
            DMP_INT1_EN,
        )
    } else {
        routed.modify(Register::IntEnable, DMP_INT1_EN, 0)
    }
}

/// Turns the processor on or off, with the I2C master only where the magnetometer is set
/// up.
pub open spec fn switch<E>(run: Run<E>, on: bool) -> Run<E> {
    enable(run, on, run.state().mag_initialized)
}

/// Tells the processor which sensors to fuse, and reads one of the settings
/// back.
pub open spec fn enable_fusion<E>(run: Run<E>) -> Run<E> {
    let written = write_memory(
        write_memory(
            write_memory(
                write_memory(
                    write_memory(run, DATA_OUT_CTL1, high_first(0x8408)),
                    DATA_OUT_CTL2,
                    high_first(0x0007),
                ),
                DATA_INTR_CTL,
                high_first(0x8408),
            ),
            MOTION_EVENT_CTL,
            high_first(0x0107),
        ),
        DATA_RDY_STATUS,
        high_first(0x000B),
    );
    read_memory(written.spin(10000), DATA_RDY_STATUS, seq![0, 0]).0
}

/// Empties the FIFO.
pub open spec fn clear_fifo<E>(run: Run<E>) -> Run<E> {
    run.select(Bank::Bank0).modify(Register::UserCtrl, SRAM_RST, SRAM_RST)
}

/// Turns the processor's interrupt on or off.
pub open spec fn switch_interrupt<E>(run: Run<E>, on: bool) -> Run<E> {
    run.select(Bank::Bank0).modify(Register::IntEnable, DMP_INT1_EN, flag(DMP_INT1_EN, on))
}

/// Asks whether the processor's interrupt is on: the run, and the answer.
pub open spec fn interrupt_on<E>(run: Run<E>) -> (Run<E>, bool) {
    let r = run.select(Bank::Bank0);
    (r.get(Register::IntEnable), r.next_byte() & DMP_INT1_EN != 0)
}

/// Reads `FIFO_EN_2`: the run, and what the register holds.
pub open spec fn routing<E>(run: Run<E>) -> (Run<E>, u8) {
    let r = run.select(Bank::Bank0);
    (r.get(Register::FifoEn2), r.next_byte())
}

/// Sets the watermark of the FIFO.
pub open spec fn set_watermark<E>(run: Run<E>, watermark: u16) -> Run<E> {
    write_memory(run, FIFO_WATERMARK, high_first(watermark))
}

/// Reads the watermark of the FIFO: the run, and the watermark.
pub open spec fn watermark<E>(run: Run<E>) -> (Run<E>, u16) {
    let (read, bytes) = read_memory(run, FIFO_WATERMARK, seq![0, 0]);
    (read, from_high_first(bytes))
}

/// Tells the processor which sensors there are.
pub open spec fn enable_sensors<E>(run: Run<E>, accel: bool, gyro: bool, compass: bool) -> Run<E> {
    write_memory(run, DATA_RDY_STATUS, high_first(ready_bits(accel, gyro, compass)))
}

/// Tells the processor which calibrations and which fusion to run.
pub open spec fn control_motion<E>(
    run: Run<E>,
    accel_calibr: bool,
    gyro_calibr: bool,
    compass_calibr: bool,
    nine_axis: bool,
) -> Run<E> {
    write_memory(
        run,
        MOTION_EVENT_CTL,
        high_first(motion_bits(accel_calibr, gyro_calibr, compass_calibr, nine_axis)),
    )
}

/// Resets the processor, sets the sensors up for it and loads its firmware.
pub open spec fn start<E>(run: Run<E>, firmware: Seq<u8>) -> Run<E> {
    load_firmware(prepare(reset(run)), firmware)
}

/// Leads the accelerometer and the gyroscope to the processor and empties the
/// FIFO.
pub open spec fn route_sensors<E>(run: Run<E>) -> Run<E> {
    run.select(Bank::Bank0).modify(Register::FifoEn2, MOTION_AXES, MOTION_AXES).put(
        Register::FifoRst,
        ALL_FIFOS,
    ).spin(1000)
}

/// One write to the processor's memory.
pub struct DmpWrite<'a> {
    /// Where it goes.
    pub address: u16,
    /// What is written.
    pub data: &'a [u8],
}

/// Makes the writes of a sequence, from entry `from` on.
pub open spec fn write_all<E>(run: Run<E>, writes: Seq<DmpWrite>, from: int) -> Run<E>
    decreases writes.len() - from,
{
    if run.failed is Some || from >= writes.len() {
        run
    } else {
        write_all(
            write_memory(run, writes[from].address, writes[from].data@),
            writes,
            from + 1,
        )
    }
}

/// Stops the I2C master, where it runs, so that it does not come between the
/// writes to the processor's memory.
pub open spec fn stop_master<E>(run: Run<E>) -> Run<E> {
    let cycles = run.next_byte() & I2C_MST_CYCLE != 0;
    let lp_read = run.get(Register::LpConfig);
    let enabled = lp_read.next_byte() & I2C_MST_EN != 0;
    let read = lp_read.get(Register::UserCtrl);
    if cycles || enabled {
        let stopped = if cycles {
            read.modify(Register::LpConfig, I2C_MST_CYCLE, 0)
        } else {
            read
        };
        (if enabled {
            stopped.modify(Register::UserCtrl, I2C_MST_EN, 0)
        } else {
            stopped
        }).spin(5000)
    } else {
        read
    }
}

/// Writes a configuration to the processor's memory.
pub open spec fn configure<E>(run: Run<E>, writes: Seq<DmpWrite>) -> Run<E> {
    let written = write_memory(
        write_all(stop_master(run.select(Bank::Bank0)), writes, 0),
        DATA_RDY_STATUS,
        high_first(0x000B),
    );
    read_memory(written, DATA_RDY_STATUS, seq![0, 0]).0
}

/// The counter that belongs to an output rate.
pub open spec fn spec_odr_counter(odr_register: u16) -> Option<u16> {
    if odr_register == ODR_QUAT9 {
        Some(ODR_CNTR_QUAT9)
    } else if odr_register == ODR_QUAT6 {
        Some(ODR_CNTR_QUAT6)
    } else if odr_register == ODR_ACCEL {
        Some(ODR_CNTR_ACCEL)
    } else if odr_register == ODR_GYRO {
        Some(ODR_CNTR_GYRO)
    } else if odr_register == ODR_CPASS {
        Some(ODR_CNTR_CPASS)
    } else if odr_register == ODR_GYRO_CALIBR {
        Some(ODR_CNTR_GYRO_CALIBR)
    } else if odr_register == ODR_CPASS_CALIBR {
        Some(ODR_CNTR_CPASS_CALIBR)
    } else {
        None
    }
}

/// The counter that belongs to an output rate, if the rate is a known one.
pub fn odr_counter(odr_register: u16) -> (counter: Option<u16>)
    ensures
        counter == spec_odr_counter(odr_register),
{
    if odr_register == ODR_QUAT9 {
        Some(ODR_CNTR_QUAT9)
    } else if odr_register == ODR_QUAT6 {
        Some(ODR_CNTR_QUAT6)
    } else if odr_register == ODR_ACCEL {
        Some(ODR_CNTR_ACCEL)
    } else if odr_register == ODR_GYRO {
        Some(ODR_CNTR_GYRO)
    } else if odr_register == ODR_CPASS {
        Some(ODR_CNTR_CPASS)
    } else if odr_register == ODR_GYRO_CALIBR {
        Some(ODR_CNTR_GYRO_CALIBR)
    } else if odr_register == ODR_CPASS_CALIBR {
        Some(ODR_CNTR_CPASS_CALIBR)
    } else {
        None
    }
}

/// Sets an output rate and starts its counter anew. The rate is written first;
/// where it has no counter the call fails.
pub open spec fn set_odr<E>(run: Run<E>, odr_register: u16, interval: u16) -> Run<E> {
    let written = write_memory(run, odr_register, high_first(interval));
    match spec_odr_counter(odr_register) {
        Some(counter) => write_memory(written, counter, seq![0, 0]),
        None => written.fail(Error::InvalidConfig),
    }
}

/// `mask`, or 0.
pub open spec fn spec_word(mask: u16, on: bool) -> u16 {
    if on {
        mask
    } else {
        0
    }
}

/// `mask`, or 0.
fn word(mask: u16, on: bool) -> (value: u16)
    ensures
        value == spec_word(mask, on),
{
    if on {
        mask
    } else {
        0
    }
}

/// The value of `DATA_RDY_STATUS` for a set of sensors.
pub open spec fn ready_bits(accel: bool, gyro: bool, compass: bool) -> u16 {
    (spec_word(0x0001, gyro) + spec_word(0x0002, accel) + spec_word(0x0008, compass)) as u16
}

/// The value of `MOTION_EVENT_CTL` for a set of features.
pub open spec fn motion_bits(
    accel_calibr: bool,
    gyro_calibr: bool,
    compass_calibr: bool,
    nine_axis: bool,
) -> u16 {
    (spec_word(0x0001, accel_calibr) + spec_word(0x0002, gyro_calibr) + spec_word(
        0x0004,
        compass_calibr,
    ) + spec_word(0x0100, nine_axis)) as u16
}

/// Sets the output rates of the accelerometer, the gyroscope and, if there is one, the
/// magnetometer, and of the quaternion that is made of them, each to the sensor's
/// rate.
#[verifier::opaque]
pub open spec fn set_rates<E>(run: Run<E>, magnetometer: bool) -> Run<E> {
    let motion = set_odr(set_odr(run, ODR_ACCEL, 0), ODR_GYRO, 0);
    if magnetometer {
        set_odr(set_odr(motion, ODR_CPASS, 0), ODR_QUAT9, 0)
    } else {
        set_odr(motion, ODR_QUAT6, 0)
    }
}

/// Tells the processor which sensors there are and what to run on them, and reads
/// both settings back.
#[verifier::opaque]
pub open spec fn announce_sensors<E>(run: Run<E>, magnetometer: bool) -> Run<E> {
    let (ready, status) = read_memory(
        enable_sensors(run, true, true, magnetometer),
        DATA_RDY_STATUS,
        seq![0, 0],
    );
    read_memory(
        control_motion(ready, true, true, magnetometer, magnetometer),
        MOTION_EVENT_CTL,
        status,
    ).0
}

/// Sets the processor up for the accelerometer, the gyroscope and, for nine-axis
/// fusion, the magnetometer.
pub open spec fn configure_sensors<E>(run: Run<E>, magnetometer: bool) -> Run<E> {
    let awake = run.select(Bank::Bank0).modify(Register::PwrMgmt1, SLEEP, 0).modify(
        Register::LpConfig,
        I2C_MST_CYCLE | ACCEL_CYCLE | GYRO_CYCLE,
        0,
    ).spin(1000);
    announce_sensors(set_rates(awake, magnetometer), magnetometer).modify(
        Register::PwrMgmt1,
        LP_EN,
        LP_EN,
    ).modify(Register::LpConfig, I2C_MST_CYCLE, I2C_MST_CYCLE)
}

/// After a failure a sequence stays where it is.
proof fn lemma_failed_set_rates<E>(run: Run<E>, magnetometer: bool)
    requires
        run.failed is Some,
    ensures
        set_rates(run, magnetometer) == run,
{
    reveal(set_rates);
}

/// After a failure a sequence stays where it is.
proof fn lemma_failed_announce_sensors<E>(run: Run<E>, magnetometer: bool)
    requires
        run.failed is Some,
    ensures
        announce_sensors(run, magnetometer) == run,
{
    reveal(announce_sensors);
}

/// Bytes that wait in the FIFO, from the two count registers: bits 4 to 0 of
/// the high one and the low one.
pub open spec fn waiting(high: u8, low: u8) -> u16 {
    (256 * (high & 0x1F) + low) as u16
}

/// Puts the two count registers together.
pub(crate) fn join_waiting(high: u8, low: u8) -> (count: u16)
    ensures
        count == waiting(high, low),
        count < 0x2000,
{
    assert(high & 0x1F <= 0x1F) by (bit_vector);
    256 * ((high & 0x1F) as u16) + (low as u16)
}

/// Reads the number of bytes in the FIFO: the run, and the number.
pub open spec fn count<E>(run: Run<E>) -> (Run<E>, u16) {
    let r = run.select(Bank::Bank0);
    let then = r.get(Register::FifoCountH);
    (then.get(Register::FifoCountL), waiting(r.next_byte(), then.next_byte()))
}

/// Reads `len` bytes out of the FIFO in one access, if that is more than none.
pub open spec fn burst<E>(run: Run<E>, len: nat) -> Run<E> {
    let r = run.select(Bank::Bank0);
    if len == 0 {
        r
    } else {
        r.read(Register::FifoRW, 8, len)
    }
}

/// Reads as many bytes out of the FIFO as `buffer` holds, in one access: the run, and
/// the buffer after it.
pub open spec fn burst_into<E>(run: Run<E>, buffer: Seq<u8>) -> (Run<E>, Seq<u8>) {
    let r = run.select(Bank::Bank0);
    (
        burst(run, buffer.len()),
        if r.ok() && buffer.len() > 0 {
            r.next(buffer.len())
        } else {
            buffer
        },
    )
}

/// The most bytes that are taken from the FIFO for one packet.
pub const MAX_PACKET: usize = 64;

/// How much of the FIFO is taken for one packet: all of it, up to
/// [`MAX_PACKET`] bytes.
pub open spec fn packet_len(waiting: u16) -> nat {
    if waiting < MAX_PACKET {
        waiting as nat
    } else {
        MAX_PACKET as nat
    }
}

/// Reads a packet from the FIFO: the run, and the packet, if there was at
/// least a header in the FIFO.
pub open spec fn take_packet<E>(run: Run<E>) -> (Run<E>, Option<Seq<u8>>) {
    let (counted, waiting) = count(run);
    if waiting < 2 {
        (counted, None)
    } else {
        let r = counted.select(Bank::Bank0);
        (burst(counted, packet_len(waiting)), Some(r.next(packet_len(waiting))))
    }
}

/// What a packet of the processor holds, with quaternions of type `Q`.
#[derive(Debug, PartialEq, Eq)]
pub struct DmpData<Q> {
    /// From accelerometer, gyroscope and magnetometer.
    pub quaternion_9axis: Option<Q>,
    /// From accelerometer and gyroscope.
    pub quaternion_6axis: Option<Q>,
    /// The game rotation vector.
    pub game_rotation_vector: Option<Q>,
    /// The geomagnetic rotation vector.
    pub geomag_rotation_vector: Option<Q>,
}

impl<Q> DmpData<Q> {
    /// The first quaternion that is there: of nine axes, of six axes, of the
    /// game rotation vector, of the geomagnetic one.
    pub open spec fn spec_first_quaternion(self) -> Option<Q> {
        if self.quaternion_9axis is Some {
            self.quaternion_9axis
        } else if self.quaternion_6axis is Some {
            self.quaternion_6axis
        } else if self.game_rotation_vector is Some {
            self.game_rotation_vector
        } else {
            self.geomag_rotation_vector
        }
    }

    /// The first quaternion that is there: of nine axes, of six axes, of the
    /// game rotation vector, of the geomagnetic one.
    pub fn first_quaternion(self) -> (quaternion: Option<Q>)
        ensures
            quaternion == self.spec_first_quaternion(),
    {
        if let Some(quaternion) = self.quaternion_9axis {
            return Some(quaternion);
        }
        if let Some(quaternion) = self.quaternion_6axis {
            return Some(quaternion);
        }
        if let Some(quaternion) = self.game_rotation_vector {
            return Some(quaternion);
        }
        self.geomag_rotation_vector
    }
}

impl<I: Interface> Icm20948Driver<I> {
    /// Pushes bytes through `MEM_R_W`.
    pub(crate) fn push_bytes(&mut self, data: &[u8], from: usize, to: usize) -> (res: Result<
        (),
        Error<I::Error>,
    >)
        requires
            old(self)@.state.bank == Some(Bank::Bank0),
            from <= to <= data@.len(),
        ensures
            push_bytes(old(self)@.run(), data@.subrange(from as int, to as int)).ends(
                final(self)@,
                res,
            ),
            final(self)@.state == old(self)@.state,
            old(self)@.at_once(final(self)@),
    {
        let ghost all = data@.subrange(from as int, to as int);
        let mut i: usize = from;
        assert(all.skip(0) =~= all);
        while i < to
            invariant
                self@.state.bank == Some(Bank::Bank0),
                from <= i <= to <= data@.len(),
                all == data@.subrange(from as int, to as int),
                push_bytes(old(self)@.run(), all) == push_bytes(
                    self@.run(),
                    all.skip(i - from),
                ),
                self@.state == old(self)@.state,
                old(self)@.at_once(self@),
            decreases to - i,
        {
            proof {
                reveal_with_fuel(push_bytes, 2);
                assert(all.skip(i - from).skip(1) =~= all.skip(i + 1 - from));
            }
            self.put(Register::MemRW, data[i])?;
            i += 1;
        }
        Ok(())
    }

    /// Writes data to the processor's memory, with bank 0 selected.
    fn write_chunks(&mut self, address: u16, data: &[u8]) -> (res: Result<(), Error<I::Error>>)
        requires
            old(self)@.state.bank == Some(Bank::Bank0),
            address + data@.len() <= u16::MAX,
        ensures
            write_chunks(old(self)@.run(), address as int, data@).ends(final(self)@, res),
            final(self)@.state == old(self)@.state,
            old(self)@.at_once(final(self)@),
    {
        let mut written: usize = 0;
        let mut current: u16 = address;
        assert(data@.skip(0) =~= data@);
        while written < data.len()
            invariant
                self@.state.bank == Some(Bank::Bank0),
                written <= data@.len(),
                address + data@.len() <= u16::MAX,
                current == address + written,
                write_chunks(old(self)@.run(), address as int, data@) == write_chunks(
                    self@.run(),
                    current as int,
                    data@.skip(written as int),
                ),
                self@.state == old(self)@.state,
                old(self)@.at_once(self@),
            decreases data@.len() - written,
        {
            let remaining: usize = data.len() - written;
            let size: usize = if remaining < CHUNK {
                remaining
            } else {
                CHUNK
            };
            proof {
                reveal_with_fuel(write_chunks, 2);
                let rest = data@.skip(written as int);
                assert(rest.take(size as int) =~= data@.subrange(
                    written as int,
                    written + size,
                ));
                assert(rest.skip(size as int) =~= data@.skip(written + size));
            }
            self.put(Register::MemBankSel, (current / 256) as u8)?;
            self.put(Register::MemStartAddr, (current % 256) as u8)?;
            self.push_bytes(data, written, written + size)?;
            written += size;
            current += size as u16;
        }
        Ok(())
    }

    /// Writes data to the processor's memory from `address` on.
    pub(crate) fn write_dmp_memory(&mut self, address: u16, data: &[u8]) -> (res: Result<
        (),
        Error<I::Error>,
    >)
        requires
            address + data@.len() <= u16::MAX,
        ensures
            write_memory(old(self)@.run(), address, data@).ends(final(self)@, res),
            res is Ok && data@.len() > 0 ==> old(self)@.moved_to(final(self)@, Bank::Bank0),
            old(self)@.at_once(final(self)@),
    {
        if data.len() == 0 {
            return Ok(());
        }
        self.select_bank(Bank::Bank0)?;
        self.write_chunks(address, data)
    }

    /// Reads the processor's memory from `address` on into `buffer`.
    pub fn read_dmp_memory(&mut self, address: u16, buffer: &mut [u8]) -> (res: Result<
        (),
        Error<I::Error>,
    >)
        ensures
            read_memory(old(self)@.run(), address, old(buffer)@).0.ends(final(self)@, res),
            final(buffer)@ == read_memory(old(self)@.run(), address, old(buffer)@).1,
            res is Ok ==> old(self)@.moved_to(final(self)@, Bank::Bank0),
            old(self)@.at_once(final(self)@),
    {
        self.select_bank(Bank::Bank0)?;
        self.put(Register::MemBankSel, (address / 256) as u8)?;
        self.put(Register::MemStartAddr, (address % 256) as u8)?;
        let count: usize = buffer.len();
        self.fill(Register::MemRW, buffer, count)
    }

    /// Loads the processor's firmware. The memory does not outlast a power-down,
    /// so this is done after every power-up, and about a millisecond later the
    /// processor can be set up.
    pub fn dmp_load_firmware(&mut self, firmware: &[u8]) -> (res: Result<(), Error<I::Error>>)
        requires
            firmware@.len() <= u16::MAX,
        ensures
            load_firmware(old(self)@.run(), firmware@).ends(final(self)@, res),
            old(self)@.at_once(final(self)@),
    {
        self.select_bank(Bank::Bank0)?;
        self.write_chunks(0, firmware)?;
        self.finish_firmware()
    }

    /// Sets the program's start address, and the two registers that some chip
    /// revisions need.
    pub(crate) fn finish_firmware(&mut self) -> (res: Result<(), Error<I::Error>>)
        ensures
            finish_firmware(old(self)@.run()).ends(final(self)@, res),
            old(self)@.at_once(final(self)@),
    {
        self.select_bank(Bank::Bank2)?;
        self.put(Register::PrgmStartAddrH, 0x10)?;
        self.put(Register::PrgmStartAddrL, 0x00)?;
        self.select_bank(Bank::Bank0)?;
        self.put(Register::HwFixDisable, 0x48)?;
        self.put(Register::SingleFifoPrioritySel, 0xE4)
    }

    /// Wakes the chip and its sensors and sets their sample rates.
    pub(crate) fn dmp_prepare(&mut self) -> (res: Result<(), Error<I::Error>>)
        ensures
            prepare(old(self)@.run()).ends(final(self)@, res),
            res is Ok ==> old(self)@.moved_to(final(self)@, Bank::Bank0),
            old(self)@.at_once(final(self)@),
    {
        self.select_bank(Bank::Bank0)?;
        self.modify(Register::PwrMgmt1, LP_EN | SLEEP | CLKSEL, 1)?;
        self.put(Register::LpConfig, 0)?;
        self.put(Register::PwrMgmt2, 0)?;
        self.select_bank(Bank::Bank2)?;
        self.modify(Register::GyroConfig1, GYRO_FCHOICE, GYRO_FCHOICE)?;
        self.put(Register::GyroSmplrtDiv, 0)?;
        self.modify(Register::AccelConfig, ACCEL_FCHOICE, ACCEL_FCHOICE)?;
        self.put(Register::AccelSmplrtDiv1, 0)?;
        self.put(Register::AccelSmplrtDiv2, 0)?;
        self.put(Register::OdrAlignEn, ODR_ALIGN)?;
        self.put(Register::ModCtrlUsr, REG_LP_DMP_EN)?;
        self.select_bank(Bank::Bank0)
    }

    /// Resets the processor, sets the sensors up for it and loads its firmware.
    pub fn dmp_init(&mut self, firmware: &[u8]) -> (res: Result<(), Error<I::Error>>)
        requires
            firmware@.len() <= u16::MAX,
        ensures
            start(old(self)@.run(), firmware@).ends(final(self)@, res),
            old(self)@.at_once(final(self)@),
    {
        self.dmp_reset()?;
        self.dmp_prepare()?;
        self.dmp_load_firmware(firmware)
    }

    /// Resets the processor. Its firmware has to be loaded again afterwards.
    pub fn dmp_reset(&mut self) -> (res: Result<(), Error<I::Error>>)
        ensures
            reset(old(self)@.run()).ends(final(self)@, res),
            old(self)@.at_once(final(self)@),
    {
        self.select_bank(Bank::Bank0)?;
        self.modify(Register::UserCtrl, DMP_RST, DMP_RST)
    }

    /// Reads a register and clears bits of it, if one of those in `mask` is set.
    fn clear_if_set(&mut self, register: Register, mask: u8, clear: u8) -> (res: Result<
        (),
        Error<I::Error>,
    >)
        requires
            register != Register::RegBankSel,
            old(self)@.state.bank == Some(register.bank()),
        ensures
            clear_if_set(old(self)@.run(), register, mask, clear).ends(final(self)@, res),
            final(self)@.state == old(self)@.state,
            old(self)@.at_once(final(self)@),
    {
        let value: u8 = self.get(register)?;
        if value & mask != 0 {
            self.modify(register, clear, 0)?;
        }
        Ok(())
    }

    /// Turns the processor on or off, and with it the FIFO, the paths of the
    /// sensor data, the interrupt and, once the magnetometer is set up, the I2C
    /// master. The firmware has to be loaded before.
    pub fn dmp_enable(&mut self, enable: bool) -> (res: Result<(), Error<I::Error>>)
        ensures
            switch(old(self)@.run(), enable).ends(final(self)@, res),
            old(self)@.at_once(final(self)@),
    {
        self.select_bank(Bank::Bank0)?;
        if enable {
            self.clear_if_set(Register::PwrMgmt1, LP_EN, LP_EN)?;
            self.clear_if_set(
                Register::LpConfig,
                ACCEL_CYCLE | GYRO_CYCLE,
                ACCEL_CYCLE | GYRO_CYCLE,
            )?;
            let disabled: u8 = self.get(Register::PwrMgmt2)?;
            if disabled & ALL_AXES != 0 {
                self.put(Register::PwrMgmt2, 0)?;
            }
        }
        let magnetometer = self.state().mag_initialized;
        self.modify(
            Register::UserCtrl,
            DMP_EN | FIFO_EN | I2C_MST_EN,
            flag(DMP_EN | FIFO_EN, enable) | flag(I2C_MST_EN, enable && magnetometer),
        )?;
        self.put(Register::FifoEn2, flag(MOTION_AXES, enable))?;
        if enable {
            self.modify(Register::LpConfig, I2C_MST_CYCLE, I2C_MST_CYCLE)?;
            self.modify(Register::IntEnable, DMP_INT1_EN, DMP_INT1_EN)
        } else {
            self.modify(Register::IntEnable, DMP_INT1_EN, 0)
        }
    }

    /// Turns nine-axis fusion on. This comes after [`Self::dmp_enable`], since
    /// the firmware sets these addresses when it starts.
    pub fn dmp_enable_sensor_fusion(&mut self) -> (res: Result<(), Error<I::Error>>)
        ensures
            enable_fusion(old(self)@.run()).ends(final(self)@, res),
            old(self)@.at_once(final(self)@),
    {
        self.write_dmp_memory(DATA_OUT_CTL1, &split_high_first(0x8408))?;
        self.write_dmp_memory(DATA_OUT_CTL2, &split_high_first(0x0007))?;
        self.write_dmp_memory(DATA_INTR_CTL, &split_high_first(0x8408))?;
        self.write_dmp_memory(MOTION_EVENT_CTL, &split_high_first(0x0107))?;
        self.write_dmp_memory(DATA_RDY_STATUS, &split_high_first(0x000B))?;
        self.spin(10000);
        let mut readback: [u8; 2] = [0u8; 2];
        assert(readback@ =~= seq![0u8, 0u8]);
        self.read_dmp_memory(DATA_RDY_STATUS, &mut readback)
    }

    /// Leads the accelerometer and the gyroscope to the processor and empties
    /// the FIFO.
    pub fn dmp_enable_sensor_routing(&mut self) -> (res: Result<(), Error<I::Error>>)
        ensures
            route_sensors(old(self)@.run()).ends(final(self)@, res),
            old(self)@.at_once(final(self)@),
    {
        self.select_bank(Bank::Bank0)?;
        self.modify(Register::FifoEn2, MOTION_AXES, MOTION_AXES)?;
        self.put(Register::FifoRst, ALL_FIFOS)?;
        self.spin(1000);
        Ok(())
    }

    /// Reads `FIFO_EN_2`, as it stands.
    pub fn read_fifo_en_2(&mut self) -> (res: Result<u8, Error<I::Error>>)
        ensures
            ({
                let (run, value) = routing(old(self)@.run());
                run.yields(final(self)@, res, value)
            }),
            old(self)@.at_once(final(self)@),
    {
        self.select_bank(Bank::Bank0)?;
        self.get(Register::FifoEn2)
    }

    /// Reads how many bytes wait in the FIFO.
    pub fn read_fifo_count(&mut self) -> (res: Result<u16, Error<I::Error>>)
        ensures
            count(old(self)@.run()).0.yields(final(self)@, res, count(old(self)@.run()).1),
            res is Ok ==> res->Ok_0 < 0x2000 && old(self)@.moved_to(final(self)@, Bank::Bank0),
            old(self)@.at_once(final(self)@),
    {
        self.select_bank(Bank::Bank0)?;
        let high: u8 = self.get(Register::FifoCountH)?;
        let low: u8 = self.get(Register::FifoCountL)?;
        Ok(join_waiting(high, low))
    }

    /// Reads `buffer.len()` bytes out of the FIFO in one access, and returns how
    /// many these are. A single access does not collide with the I2C master.
    pub fn read_fifo_raw(&mut self, buffer: &mut [u8]) -> (res: Result<usize, Error<I::Error>>)
        ensures
            ({
                let (run, bytes) = burst_into(old(self)@.run(), old(buffer)@);
                &&& run.yields(final(self)@, res, old(buffer)@.len() as usize)
                &&& final(buffer)@ == bytes
            }),
            res is Ok ==> old(self)@.moved_to(final(self)@, Bank::Bank0),
            old(self)@.at_once(final(self)@),
    {
        self.select_bank(Bank::Bank0)?;
        let len: usize = buffer.len();
        if len == 0 {
            return Ok(0);
        }
        self.read(Register::FifoRW, 8, buffer)?;
        Ok(len)
    }

    /// Empties the FIFO.
    pub fn reset_fifo(&mut self) -> (res: Result<(), Error<I::Error>>)
        ensures
            clear_fifo(old(self)@.run()).ends(final(self)@, res),
            old(self)@.at_once(final(self)@),
    {
        self.select_bank(Bank::Bank0)?;
        self.modify(Register::UserCtrl, SRAM_RST, SRAM_RST)
    }

    /// Sets how many bytes have to wait in the FIFO for the processor to raise
    /// its interrupt.
    pub fn set_dmp_fifo_watermark(&mut self, watermark: u16) -> (res: Result<(), Error<I::Error>>)
        ensures
            set_watermark(old(self)@.run(), watermark).ends(final(self)@, res),
            old(self)@.at_once(final(self)@),
    {
        self.write_dmp_memory(FIFO_WATERMARK, &split_high_first(watermark))
    }

    /// Reads how many bytes have to wait in the FIFO for the processor to raise
    /// its interrupt.
    pub fn get_dmp_fifo_watermark(&mut self) -> (res: Result<u16, Error<I::Error>>)
        ensures
            ({
                let (run, bytes) = watermark(old(self)@.run());
                run.yields(final(self)@, res, bytes)
            }),
            old(self)@.at_once(final(self)@),
    {
        let mut bytes: [u8; 2] = [0u8; 2];
        assert(bytes@ =~= seq![0u8, 0u8]);
        self.read_dmp_memory(FIFO_WATERMARK, &mut bytes)?;
        Ok(256 * (bytes[0] as u16) + (bytes[1] as u16))
    }

    /// Turns the processor's interrupt on or off.
    pub fn set_dmp_interrupt_enable(&mut self, enable: bool) -> (res: Result<(), Error<I::Error>>)
        ensures
            switch_interrupt(old(self)@.run(), enable).ends(final(self)@, res),
            old(self)@.at_once(final(self)@),
    {
        self.select_bank(Bank::Bank0)?;
        self.modify(Register::IntEnable, DMP_INT1_EN, flag(DMP_INT1_EN, enable))
    }

    /// Whether the processor's interrupt is on.
    pub fn is_dmp_interrupt_enabled(&mut self) -> (res: Result<bool, Error<I::Error>>)
        ensures
            ({
                let (run, value) = interrupt_on(old(self)@.run());
                run.yields(final(self)@, res, value)
            }),
            old(self)@.at_once(final(self)@),
    {
        self.select_bank(Bank::Bank0)?;
        let value: u8 = self.get(Register::IntEnable)?;
        Ok(value & DMP_INT1_EN != 0)
    }

    /// Stops the I2C master, where it runs.
    fn stop_master(&mut self) -> (res: Result<(), Error<I::Error>>)
        requires
            old(self)@.state.bank == Some(Bank::Bank0),
        ensures
            stop_master(old(self)@.run()).ends(final(self)@, res),
            final(self)@.state == old(self)@.state,
            old(self)@.at_once(final(self)@),
    {
        let lp_config: u8 = self.get(Register::LpConfig)?;
        let cycles = lp_config & I2C_MST_CYCLE != 0;
        let user_ctrl: u8 = self.get(Register::UserCtrl)?;
        let enabled = user_ctrl & I2C_MST_EN != 0;
        if cycles || enabled {
            if cycles {
                self.modify(Register::LpConfig, I2C_MST_CYCLE, 0)?;
            }
            if enabled {
                self.modify(Register::UserCtrl, I2C_MST_EN, 0)?;
            }
            self.spin(5000);
        }
        Ok(())
    }

    /// Writes a configuration, given as the writes that make it up, to the
    /// processor's memory. The I2C master is stopped before, and left stopped:
    /// [`Self::dmp_enable`] turns it on again. The firmware has to be loaded
    /// before.
    pub fn dmp_configure(&mut self, init_sequence: &[DmpWrite]) -> (res: Result<
        (),
        Error<I::Error>,
    >)
        requires
            forall|i: int|
                0 <= i < init_sequence@.len() ==> (#[trigger] init_sequence@[i]).address
                    + init_sequence@[i].data@.len() <= u16::MAX,
        ensures
            configure(old(self)@.run(), init_sequence@).ends(final(self)@, res),
            old(self)@.at_once(final(self)@),
    {
        self.select_bank(Bank::Bank0)?;
        self.stop_master()?;
        let mut i: usize = 0;
        let ghost stopped = self@.run();
        while i < init_sequence.len()
            invariant
                i <= init_sequence@.len(),
                forall|j: int|
                    0 <= j < init_sequence@.len() ==> (#[trigger] init_sequence@[j]).address
                        + init_sequence@[j].data@.len() <= u16::MAX,
                stopped == stop_master(old(self)@.run().select(Bank::Bank0)),
                write_all(stopped, init_sequence@, 0) == write_all(
                    self@.run(),
                    init_sequence@,
                    i as int,
                ),
                old(self)@.at_once(self@),
            decreases init_sequence@.len() - i,
        {
            proof {
                reveal_with_fuel(write_all, 2);
            }
            let write = &init_sequence[i];
            self.write_dmp_memory(write.address, write.data)?;
            i += 1;
        }
        self.write_dmp_memory(DATA_RDY_STATUS, &split_high_first(0x000B))?;
        let mut readback: [u8; 2] = [0u8; 2];
        assert(readback@ =~= seq![0u8, 0u8]);
        self.read_dmp_memory(DATA_RDY_STATUS, &mut readback)
    }

    /// Reads a packet from the FIFO, if there is one.
    fn take_packet(&mut self) -> (res: Result<Option<Vec<u8>>, Error<I::Error>>)
        ensures
            ({
                let (run, packet) = take_packet(old(self)@.run());
                &&& final(self)@ == run.m
                &&& res is Ok <==> run.ok()
                &&& res matches Err(error) ==> run.failed == Some(error)
                &&& res matches Ok(Some(bytes)) ==> packet == Some(bytes@)
                &&& res matches Ok(None) ==> packet is None
            }),
            old(self)@.at_once(final(self)@),
    {
        let waiting: u16 = self.read_fifo_count()?;
        if waiting < 2 {
            return Ok(None);
        }
        let len: usize = if (waiting as usize) < MAX_PACKET {
            waiting as usize
        } else {
            MAX_PACKET
        };
        let mut buffer: Vec<u8> = vec![0u8; len];
        self.read_fifo_raw(buffer.as_mut_slice())?;
        Ok(Some(buffer))
    }

    /// Reads a packet from the FIFO and makes of it what `parse` does. There is
    /// none if the FIFO holds less than a header.
    pub fn dmp_read_fifo<T, F: Fn(&[u8]) -> Option<T>>(&mut self, parse: F) -> (res: Result<
        Option<T>,
        Error<I::Error>,
    >)
        requires
            forall|packet: &[u8]| #[trigger] parse.requires((packet,)),
        ensures
            ({
                let (run, packet) = take_packet(old(self)@.run());
                &&& final(self)@ == run.m
                &&& match res {
                    Err(error) => run.failed == Some(error),
                    Ok(data) => run.ok() && match packet {
                        None => data is None,
                        Some(bytes) => exists|slice: &[u8]|
                            slice@ == bytes && #[trigger] parse.ensures((slice,), data),
                    },
                }
            }),
            old(self)@.at_once(final(self)@),
    {
        match self.take_packet()? {
            None => Ok(None),
            Some(packet) => Ok(parse(packet.as_slice())),
        }
    }

    /// Reads a packet from the FIFO and returns the first quaternion in what
    /// `parse` makes of it.
    pub fn dmp_read_quaternion<Q, F: Fn(&[u8]) -> Option<DmpData<Q>>>(&mut self, parse: F) -> (res:
        Result<Option<Q>, Error<I::Error>>)
        requires
            forall|packet: &[u8]| #[trigger] parse.requires((packet,)),
        ensures
            ({
                let (run, packet) = take_packet(old(self)@.run());
                &&& final(self)@ == run.m
                &&& match res {
                    Err(error) => run.failed == Some(error),
                    Ok(quaternion) => run.ok() && match packet {
                        None => quaternion is None,
                        Some(bytes) => exists|slice: &[u8], data: Option<DmpData<Q>>|
                            slice@ == bytes && #[trigger] parse.ensures((slice,), data)
                                && quaternion == match data {
                                Some(data) => data.spec_first_quaternion(),
                                None => None,
                            },
                    },
                }
            }),
            old(self)@.at_once(final(self)@),
    {
        match self.dmp_read_fifo(parse)? {
            None => Ok(None),
            Some(data) => Ok(data.first_quaternion()),
        }
    }

    /// Sets an output rate: the sensor's rate is divided by `interval` + 1. The
    /// counter behind the rate starts anew. An address that is not one of a rate
    /// is refused, after it was written to.
    pub fn dmp_set_odr(&mut self, odr_register: u16, interval: u16) -> (res: Result<
        (),
        Error<I::Error>,
    >)
        requires
            odr_register + 2 <= u16::MAX,
        ensures
            set_odr(old(self)@.run(), odr_register, interval).ends(final(self)@, res),
            res is Ok ==> old(self)@.moved_to(final(self)@, Bank::Bank0),
            old(self)@.at_once(final(self)@),
    {
        self.write_dmp_memory(odr_register, &split_high_first(interval))?;
        match odr_counter(odr_register) {
            Some(counter) => {
                let zero: [u8; 2] = [0u8; 2];
                assert(zero@ =~= seq![0u8, 0u8]);
                self.write_dmp_memory(counter, &zero)
            },
            None => {
                proof {
                    reveal(Run::fail);
                }
                Err(Error::InvalidConfig)
            },
        }
    }

    /// Tells the processor which sensors there are.
    pub fn dmp_enable_sensors(&mut self, accel: bool, gyro: bool, compass: bool) -> (res: Result<
        (),
        Error<I::Error>,
    >)
        ensures
            enable_sensors(old(self)@.run(), accel, gyro, compass).ends(final(self)@, res),
            res is Ok ==> old(self)@.moved_to(final(self)@, Bank::Bank0),
            old(self)@.at_once(final(self)@),
    {
        let status: u16 = word(0x0001, gyro) + word(0x0002, accel) + word(0x0008, compass);
        self.write_dmp_memory(DATA_RDY_STATUS, &split_high_first(status))
    }

    /// Tells the processor which calibrations and which fusion to run.
    pub fn dmp_set_motion_event_control(
        &mut self,
        accel_calibr: bool,
        gyro_calibr: bool,
        compass_calibr: bool,
        nine_axis: bool,
    ) -> (res: Result<(), Error<I::Error>>)
        ensures
            control_motion(
                old(self)@.run(),
                accel_calibr,
                gyro_calibr,
                compass_calibr,
                nine_axis,
            ).ends(final(self)@, res),
            res is Ok ==> old(self)@.moved_to(final(self)@, Bank::Bank0),
            old(self)@.at_once(final(self)@),
    {
        let control: u16 = word(0x0001, accel_calibr) + word(0x0002, gyro_calibr) + word(
            0x0004,
            compass_calibr,
        ) + word(0x0100, nine_axis);
        self.write_dmp_memory(MOTION_EVENT_CTL, &split_high_first(control))
    }

    /// Sets the output rates.
    fn set_rates(&mut self, magnetometer: bool) -> (res: Result<(), Error<I::Error>>)
        ensures
            set_rates(old(self)@.run(), magnetometer).ends(final(self)@, res),
            res is Ok ==> old(self)@.moved_to(final(self)@, Bank::Bank0),
            old(self)@.at_once(final(self)@),
    {
        proof {
            reveal(set_rates);
        }
        self.dmp_set_odr(ODR_ACCEL, 0)?;
        self.dmp_set_odr(ODR_GYRO, 0)?;
        if magnetometer {
            self.dmp_set_odr(ODR_CPASS, 0)?;
            self.dmp_set_odr(ODR_QUAT9, 0)
        } else {
            self.dmp_set_odr(ODR_QUAT6, 0)
        }
    }

    /// Tells the processor which sensors there are and what to run on them.
    fn announce_sensors(&mut self, magnetometer: bool) -> (res: Result<(), Error<I::Error>>)
        ensures
            announce_sensors(old(self)@.run(), magnetometer).ends(final(self)@, res),
            res is Ok ==> old(self)@.moved_to(final(self)@, Bank::Bank0),
            old(self)@.at_once(final(self)@),
    {
        proof {
            reveal(announce_sensors);
        }
        self.dmp_enable_sensors(true, true, magnetometer)?;
        let mut readback: [u8; 2] = [0u8; 2];
        assert(readback@ =~= seq![0u8, 0u8]);
        self.read_dmp_memory(DATA_RDY_STATUS, &mut readback)?;
        self.dmp_set_motion_event_control(true, true, magnetometer, magnetometer)?;
        self.read_dmp_memory(MOTION_EVENT_CTL, &mut readback)
    }

    /// Sets the processor up for the accelerometer, the gyroscope and, if wanted,
    /// the magnetometer: output rates, sensors, calibrations and fusion.
    pub fn dmp_configure_sensors(&mut self, enable_magnetometer: bool) -> (res: Result<
        (),
        Error<I::Error>,
    >)
        ensures
            configure_sensors(old(self)@.run(), enable_magnetometer).ends(final(self)@, res),
            old(self)@.at_once(final(self)@),
    {
        proof {
            let awake = self@.run().select(Bank::Bank0).modify(Register::PwrMgmt1, SLEEP, 0).modify(
                Register::LpConfig,
                I2C_MST_CYCLE | ACCEL_CYCLE | GYRO_CYCLE,
                0,
            ).spin(1000);
            if awake.failed is Some {
                lemma_failed_set_rates(awake, enable_magnetometer);
            }
            let rated = set_rates(awake, enable_magnetometer);
            if rated.failed is Some {
                lemma_failed_announce_sensors(rated, enable_magnetometer);
            }
        }
        self.select_bank(Bank::Bank0)?;
        self.modify(Register::PwrMgmt1, SLEEP, 0)?;
        self.modify(Register::LpConfig, I2C_MST_CYCLE | ACCEL_CYCLE | GYRO_CYCLE, 0)?;
        self.spin(1000);
        self.set_rates(enable_magnetometer)?;
        self.announce_sensors(enable_magnetometer)?;
        self.modify(Register::PwrMgmt1, LP_EN, LP_EN)?;
        self.modify(Register::LpConfig, I2C_MST_CYCLE, I2C_MST_CYCLE)
    }
}

} // verus!
