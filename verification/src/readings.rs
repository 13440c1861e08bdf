//! Laws on readings: what they are made of, what a calibration makes of them and what a
//! self-test finds.

use vstd::prelude::*;

use crate::accelerometer;
use crate::calibration;
use crate::calibration::Sample;
use crate::device;
use crate::device::{AccelData, GyroData, MagData};
use crate::effects;
use crate::gyroscope;
use crate::interface::Pause;
use crate::magnetometer;
use crate::registers::{
    Register, ACCEL_FS_SEL, AX_ST_EN, AY_ST_EN, AZ_ST_EN, GYRO_FS_SEL, XGYRO_CTEN, YGYRO_CTEN,
    ZGYRO_CTEN,
};
use crate::script::{Model, Run, State};
use crate::sensors::{AccelDlpf, AccelFullScale, GyroDlpf, GyroFullScale};
use crate::settings;
use crate::{Bank, Error};

verus! {

broadcast use crate::effects::group_effects;

/// The number that two bytes hold in two's complement.
pub open spec fn word(high: u8, low: u8) -> int {
    256 * high + low - if high >= 128 {
        65536int
    } else {
        0int
    }
}

/// Axis `k` of a reading, of which each axis is two bytes, the high one first.
pub open spec fn axis(bytes: Seq<u8>, k: int) -> int {
    word(bytes[2 * k], bytes[2 * k + 1])
}

/// A sample is the reading that six bytes hold.
pub open spec fn is_sample(sample: Sample, bytes: Seq<u8>) -> bool {
    &&& sample.x == axis(bytes, 0)
    &&& sample.y == axis(bytes, 1)
    &&& sample.z == axis(bytes, 2)
}

/// Two bytes are put together to the number that they hold, and a number is taken apart
/// again by its remainder.
pub proof fn words_are_twos_complement(high: u8, low: u8)
    ensures
        device::signed16(high, low) == word(high, low),
        (device::signed16(high, low) + 65536) % 65536 == 256 * high + low,
{
}

/// Reading the temperature sensor brings the number in one access to its two data bytes.
/// Nothing is written.
pub proof fn temperature_is_two_bytes<E>(run: Run<E>)
    ensures
        ({
            let (done, value) = device::take_temperature(run);
            let bytes = done.saw(Register::TempOutH).last();
            &&& effects::goes_through(run, done)
            &&& effects::only(run, done, set![])
            &&& done.paused() == run.paused()
            &&& done.ok() ==> {
                &&& done.saw(Register::TempOutH) == run.saw(Register::TempOutH).push(bytes)
                &&& bytes.len() == 2
                &&& value == word(bytes[0], bytes[1])
                &&& run.m.kept(done.m)
            }
        }),
{
}

/// Reading the accelerometer brings the three axes of one access to its six data bytes, the
/// high byte of each axis first. Nothing is written.
pub proof fn accelerometer_reading_is_six_bytes<E>(run: Run<E>)
    ensures
        ({
            let (done, data) = accelerometer::take(run);
            let bytes = done.saw(Register::AccelXoutH).last();
            &&& effects::goes_through(run, done)
            &&& effects::only(run, done, set![])
            &&& done.paused() == run.paused()
            &&& done.m.world == run.m.world
            &&& run.m.kept(done.m)
            &&& done.ok() ==> {
                &&& done.saw(Register::AccelXoutH) == run.saw(Register::AccelXoutH).push(bytes)
                &&& bytes.len() == 6
                &&& data.x == axis(bytes, 0)
                &&& data.y == axis(bytes, 1)
                &&& data.z == axis(bytes, 2)
            }
        }),
{
}

/// On every axis, a calibrated reading and the offset of the axis make up the raw count,
/// whatever the calibration. The factors and the range are those that the driver remembers.
pub proof fn accelerometer_reading_and_offset_make_the_count(data: AccelData, state: State)
    ensures
        ({
            let reading = accelerometer::corrected(data, state);
            let calibration = state.accel_calibration;
            &&& reading.x + calibration.offset_x == data.x
            &&& reading.y + calibration.offset_y == data.y
            &&& reading.z + calibration.offset_z == data.z
            &&& reading.scale_x_bits == calibration.scale_x_bits
            &&& reading.scale_y_bits == calibration.scale_y_bits
            &&& reading.scale_z_bits == calibration.scale_z_bits
            &&& reading.full_scale == state.accel_config.full_scale
        }),
{
}

proof fn lemma_accelerometer_sample<E>(run: Run<E>, samples: Seq<Sample>, count: nat)
    requires
        samples.len() <= count,
    ensures
        ({
            let (done, taken) = accelerometer::sample(run, samples, count);
            let n = run.saw(Register::AccelXoutH).len() as int;
            let seen = done.saw(Register::AccelXoutH);
            &&& effects::goes_through(run, done)
            &&& effects::only(run, done, set![])
            &&& done.paused() == run.paused()
            &&& done.m.world == run.m.world
            &&& run.m.kept(done.m)
            &&& done.ok() ==> run.ok()
            &&& done.ok() ==> {
                &&& taken.len() == count
                &&& seen.len() == n + (count - samples.len())
                &&& forall|i: int|
                    0 <= i < n ==> #[trigger] seen[i] == run.saw(Register::AccelXoutH)[i]
                &&& forall|i: int| 0 <= i < samples.len() ==> #[trigger] taken[i] == samples[i]
                &&& forall|i: int|
                    samples.len() <= i < count ==> is_sample(
                        #[trigger] taken[i],
                        seen[n + (i - samples.len())],
                    )
            }
        }),
    decreases count - samples.len(),
{
    if run.ok() && samples.len() < count {
        let (then, data) = accelerometer::take(run);
        accelerometer_reading_is_six_bytes(run);
        let more = samples.push(Sample { x: data.x, y: data.y, z: data.z });
        lemma_accelerometer_sample(then, more, count);
        let (done, taken) = accelerometer::sample(run, samples, count);
        if done.ok() {
            let n = run.saw(Register::AccelXoutH).len() as int;
            let seen = done.saw(Register::AccelXoutH);
            assert(seen[n] == then.saw(Register::AccelXoutH)[n]);
            assert(taken[samples.len() as int] == more[samples.len() as int]);
            assert forall|i: int| samples.len() <= i < count implies is_sample(
                #[trigger] taken[i],
                seen[n + (i - samples.len())],
            ) by {
                if i > samples.len() {
                    assert(is_sample(taken[i], seen[(n + 1) + (i - more.len())]));
                }
            }
        }
    }
}

/// Reading the gyroscope brings the three axes of one access to its six data bytes, the
/// high byte of each axis first. Nothing is written.
pub proof fn gyroscope_reading_is_six_bytes<E>(run: Run<E>)
    ensures
        ({
            let (done, data) = gyroscope::take(run);
            let bytes = done.saw(Register::GyroXoutH).last();
            &&& effects::goes_through(run, done)
            &&& effects::only(run, done, set![])
            &&& done.paused() == run.paused()
            &&& done.m.world == run.m.world
            &&& run.m.kept(done.m)
            &&& done.ok() ==> {
                &&& done.saw(Register::GyroXoutH) == run.saw(Register::GyroXoutH).push(bytes)
                &&& bytes.len() == 6
                &&& data.x == axis(bytes, 0)
                &&& data.y == axis(bytes, 1)
                &&& data.z == axis(bytes, 2)
            }
        }),
{
}

/// On every axis, a calibrated reading and the offset of the axis make up the raw count,
/// whatever the calibration. The factors and the range are those that the driver remembers.
pub proof fn gyroscope_reading_and_offset_make_the_count(data: GyroData, state: State)
    ensures
        ({
            let reading = gyroscope::corrected(data, state);
            let calibration = state.gyro_calibration;
            &&& reading.x + calibration.offset_x == data.x
            &&& reading.y + calibration.offset_y == data.y
            &&& reading.z + calibration.offset_z == data.z
            &&& reading.scale_x_bits == calibration.scale_x_bits
            &&& reading.scale_y_bits == calibration.scale_y_bits
            &&& reading.scale_z_bits == calibration.scale_z_bits
            &&& reading.full_scale == state.gyro_config.full_scale
        }),
{
}

proof fn lemma_gyroscope_sample<E>(run: Run<E>, samples: Seq<Sample>, count: nat)
    requires
        samples.len() <= count,
    ensures
        ({
            let (done, taken) = gyroscope::sample(run, samples, count);
            let n = run.saw(Register::GyroXoutH).len() as int;
            let seen = done.saw(Register::GyroXoutH);
            &&& effects::goes_through(run, done)
            &&& effects::only(run, done, set![])
            &&& done.paused() == run.paused()
            &&& done.m.world == run.m.world
            &&& run.m.kept(done.m)
            &&& done.ok() ==> run.ok()
            &&& done.ok() ==> {
                &&& taken.len() == count
                &&& seen.len() == n + (count - samples.len())
                &&& forall|i: int|
                    0 <= i < n ==> #[trigger] seen[i] == run.saw(Register::GyroXoutH)[i]
                &&& forall|i: int| 0 <= i < samples.len() ==> #[trigger] taken[i] == samples[i]
                &&& forall|i: int|
                    samples.len() <= i < count ==> is_sample(
                        #[trigger] taken[i],
                        seen[n + (i - samples.len())],
                    )
            }
        }),
    decreases count - samples.len(),
{
    if run.ok() && samples.len() < count {
        let (then, data) = gyroscope::take(run);
        gyroscope_reading_is_six_bytes(run);
        let more = samples.push(Sample { x: data.x, y: data.y, z: data.z });
        lemma_gyroscope_sample(then, more, count);
        let (done, taken) = gyroscope::sample(run, samples, count);
        if done.ok() {
            let n = run.saw(Register::GyroXoutH).len() as int;
            let seen = done.saw(Register::GyroXoutH);
            assert(seen[n] == then.saw(Register::GyroXoutH)[n]);
            assert(taken[samples.len() as int] == more[samples.len() as int]);
            assert forall|i: int| samples.len() <= i < count implies is_sample(
                #[trigger] taken[i],
                seen[n + (i - samples.len())],
            ) by {
                if i > samples.len() {
                    assert(is_sample(taken[i], seen[(n + 1) + (i - more.len())]));
                }
            }
        }
    }
}

/// The identity of the chip is the one byte that `WHO_AM_I` is read to hold, and the one
/// that a driver is made for is 0xEA.
pub proof fn identity_is_one_byte<E>(run: Run<E>)
    ensures
        ({
            let (done, id) = device::ask_identity(run);
            &&& effects::goes_through(run, done)
            &&& effects::only(run, done, set![])
            &&& done.paused() == run.paused()
            &&& run.m.kept(done.m)
            &&& done.ok() ==> {
                &&& done.saw(Register::WhoAmI) == run.saw(Register::WhoAmI).push(
                    done.saw(Register::WhoAmI).last(),
                )
                &&& id == done.saw_last(Register::WhoAmI)
            }
        }),
        crate::WHO_AM_I_VALUE == 0xEA,
{
}

/// What a caller gets of the accelerometer: raw, the three axes of the six bytes; calibrated, on
/// every axis what is left of them when the offset that the driver remembers is taken off.
pub proof fn accelerometer_reads_what_is_measured<E>(run: Run<E>)
    ensures
        ({
            let (done, (x, y, z)) = accelerometer::read_raw(run);
            let bytes = done.saw(Register::AccelXoutH).last();
            &&& effects::goes_through(run, done)
            &&& effects::only(run, done, set![])
            &&& done.paused() == run.paused()
            &&& run.m.kept(done.m)
            &&& done.ok() ==> {
                &&& done.saw(Register::AccelXoutH) == run.saw(Register::AccelXoutH).push(bytes)
                &&& (x as int, y as int, z as int) == (axis(bytes, 0), axis(bytes, 1), axis(
                    bytes,
                    2,
                ))
            }
        }),
        ({
            let (done, reading) = accelerometer::read(run);
            let bytes = done.saw(Register::AccelXoutH).last();
            let calibration = run.state().accel_calibration;
            &&& effects::goes_through(run, done)
            &&& effects::only(run, done, set![])
            &&& done.paused() == run.paused()
            &&& run.m.kept(done.m)
            &&& done.ok() ==> {
                &&& done.saw(Register::AccelXoutH) == run.saw(Register::AccelXoutH).push(bytes)
                &&& reading.x + calibration.offset_x == axis(bytes, 0)
                &&& reading.y + calibration.offset_y == axis(bytes, 1)
                &&& reading.z + calibration.offset_z == axis(bytes, 2)
                &&& reading.scale_x_bits == calibration.scale_x_bits
                &&& reading.scale_y_bits == calibration.scale_y_bits
                &&& reading.scale_z_bits == calibration.scale_z_bits
                &&& reading.full_scale == run.state().accel_config.full_scale
            }
        }),
{
    accelerometer_reading_is_six_bytes(run);
}

/// What a caller gets of the gyroscope: raw, the three axes of the six bytes; calibrated, on
/// every axis what is left of them when the offset that the driver remembers is taken off.
pub proof fn gyroscope_reads_what_is_measured<E>(run: Run<E>)
    ensures
        ({
            let (done, (x, y, z)) = gyroscope::read_raw(run);
            let bytes = done.saw(Register::GyroXoutH).last();
            &&& effects::goes_through(run, done)
            &&& effects::only(run, done, set![])
            &&& done.paused() == run.paused()
            &&& run.m.kept(done.m)
            &&& done.ok() ==> {
                &&& done.saw(Register::GyroXoutH) == run.saw(Register::GyroXoutH).push(bytes)
                &&& (x as int, y as int, z as int) == (axis(bytes, 0), axis(bytes, 1), axis(
                    bytes,
                    2,
                ))
            }
        }),
        ({
            let (done, reading) = gyroscope::read(run);
            let bytes = done.saw(Register::GyroXoutH).last();
            let calibration = run.state().gyro_calibration;
            &&& effects::goes_through(run, done)
            &&& effects::only(run, done, set![])
            &&& done.paused() == run.paused()
            &&& run.m.kept(done.m)
            &&& done.ok() ==> {
                &&& done.saw(Register::GyroXoutH) == run.saw(Register::GyroXoutH).push(bytes)
                &&& reading.x + calibration.offset_x == axis(bytes, 0)
                &&& reading.y + calibration.offset_y == axis(bytes, 1)
                &&& reading.z + calibration.offset_z == axis(bytes, 2)
                &&& reading.scale_x_bits == calibration.scale_x_bits
                &&& reading.scale_y_bits == calibration.scale_y_bits
                &&& reading.scale_z_bits == calibration.scale_z_bits
                &&& reading.full_scale == run.state().gyro_config.full_scale
            }
        }),
{
    gyroscope_reading_is_six_bytes(run);
}

/// A driver that has done nothing yet leaves what it reads as it is: no offset, every factor
/// the number one, the ranges that the chip begins with, and no magnetometer.
pub proof fn fresh_driver_changes_nothing(accel: AccelData, gyro: GyroData, mag: MagData)
    ensures
        ({
            let reading = accelerometer::corrected(accel, State::fresh());
            &&& (reading.x, reading.y, reading.z) == (accel.x as i32, accel.y as i32, accel.z as i32)
            &&& reading.scale_x_bits == 0x3F80_0000
            &&& reading.scale_y_bits == 0x3F80_0000
            &&& reading.scale_z_bits == 0x3F80_0000
            &&& reading.full_scale is G2
        }),
        ({
            let reading = gyroscope::corrected(gyro, State::fresh());
            &&& (reading.x, reading.y, reading.z) == (gyro.x as i32, gyro.y as i32, gyro.z as i32)
            &&& reading.scale_x_bits == 0x3F80_0000
            &&& reading.scale_y_bits == 0x3F80_0000
            &&& reading.scale_z_bits == 0x3F80_0000
            &&& reading.full_scale is Dps250
        }),
        ({
            let calibration = magnetometer::calibrated(mag, State::fresh()).calibration;
            &&& calibration.offset_x_bits == 0
            &&& calibration.offset_y_bits == 0
            &&& calibration.offset_z_bits == 0
            &&& calibration.scale_x_bits == 0x3F80_0000
            &&& calibration.scale_y_bits == 0x3F80_0000
            &&& calibration.scale_z_bits == 0x3F80_0000
        }),
        !State::fresh().mag_initialized,
        State::fresh().bank is None,
{
}

/// On some axis, two samples differ by more than `limit`.
pub open spec fn differ(samples: Seq<Sample>, limit: int) -> bool {
    exists|i: int, j: int|
        0 <= i < samples.len() && 0 <= j < samples.len() && {
            ||| (#[trigger] samples[i]).x - (#[trigger] samples[j]).x > limit
            ||| samples[i].y - samples[j].y > limit
            ||| samples[i].z - samples[j].z > limit
        }
}

/// The device moved if and only if on some axis, X, Y or Z, two samples differ by more than
/// the limit.
pub proof fn motion_is_a_difference(samples: Seq<Sample>, limit: int)
    ensures
        calibration::moving(samples, limit) <==> differ(samples, limit),
        !calibration::moving(samples, limit) <==> forall|i: int, j: int|
            0 <= i < samples.len() && 0 <= j < samples.len() ==> {
                &&& (#[trigger] samples[i]).x - (#[trigger] samples[j]).x <= limit
                &&& samples[i].y - samples[j].y <= limit
                &&& samples[i].z - samples[j].z <= limit
            },
{
    let xs = calibration::xs(samples);
    let ys = calibration::ys(samples);
    let zs = calibration::zs(samples);
    assert forall|i: int, j: int|
        0 <= i < samples.len() && 0 <= j < samples.len() && {
            ||| (#[trigger] samples[i]).x - (#[trigger] samples[j]).x > limit
            ||| samples[i].y - samples[j].y > limit
            ||| samples[i].z - samples[j].z > limit
        } implies calibration::moving(samples, limit) by {
        if samples[i].x - samples[j].x > limit {
            assert(xs[i] - xs[j] > limit);
        } else if samples[i].y - samples[j].y > limit {
            assert(ys[i] - ys[j] > limit);
        } else {
            assert(zs[i] - zs[j] > limit);
        }
    }
    if calibration::moving(samples, limit) {
        if calibration::spread_over(xs, limit) {
            let (i, j) = choose|i: int, j: int|
                0 <= i < xs.len() && 0 <= j < xs.len() && #[trigger] xs[i] - #[trigger] xs[j]
                    > limit;
            assert(samples[i].x - samples[j].x > limit);
        } else if calibration::spread_over(ys, limit) {
            let (i, j) = choose|i: int, j: int|
                0 <= i < ys.len() && 0 <= j < ys.len() && #[trigger] ys[i] - #[trigger] ys[j]
                    > limit;
            assert(samples[i].y - samples[j].y > limit);
        } else {
            let (i, j) = choose|i: int, j: int|
                0 <= i < zs.len() && 0 <= j < zs.len() && #[trigger] zs[i] - #[trigger] zs[j]
                    > limit;
            assert(samples[i].z - samples[j].z > limit);
        }
    }
}

/// What samples may differ by is the sensitivity divided by the divisor, rounded toward
/// zero: the greatest number that is not above it for a divisor above zero, and its
/// opposite for the opposite divisor.
pub proof fn limit_is_a_part(sensitivity: i16, divisor: i16)
    requires
        sensitivity > 0,
        divisor != 0,
    ensures
        ({
            let limit = calibration::motion_limit(sensitivity, divisor);
            let size = if divisor > 0 {
                limit
            } else {
                -limit
            };
            let parts = if divisor > 0 {
                divisor as int
            } else {
                -(divisor as int)
            };
            &&& 0 <= size
            &&& size * parts <= sensitivity < (size + 1) * parts
        }),
{
    let parts = if divisor > 0 {
        divisor as int
    } else {
        -(divisor as int)
    };
    let size = (sensitivity as int) / parts;
    assert(0 <= size && size * parts <= sensitivity < (size + 1) * parts) by (nonlinear_arith)
        requires
            parts > 0,
            sensitivity > 0,
            size == (sensitivity as int) / parts,
    ;
}

/// The sum of numbers.
pub open spec fn sum(numbers: Seq<i16>) -> int {
    numbers.fold_left(0int, |acc: int, number: i16| acc + number)
}

proof fn lemma_sum(numbers: Seq<i16>)
    ensures
        sum(numbers) == calibration::total(numbers),
    decreases numbers.len(),
{
    if numbers.len() > 0 {
        lemma_sum(numbers.drop_last());
    }
}

/// An average is the sum divided by the number of samples, rounded toward zero.
pub open spec fn is_average(value: int, numbers: Seq<i16>) -> bool {
    let n = numbers.len() as int;
    if sum(numbers) >= 0 {
        0 <= sum(numbers) - value * n < n
    } else {
        0 <= value * n - sum(numbers) < n
    }
}

/// An average is the sum divided by the number of samples, rounded toward zero, whatever
/// the samples.
pub proof fn average_is_a_part(numbers: Seq<i16>)
    requires
        numbers.len() > 0,
    ensures
        is_average(calibration::average(numbers) as int, numbers),
{
    lemma_sum(numbers);
    calibration::average_in_range(numbers);
    let n = numbers.len() as int;
    let t = calibration::total(numbers);
    let q = calibration::quotient(t, n);
    if t >= 0 {
        assert(0 <= t - q * n < n) by (nonlinear_arith)
            requires
                n > 0,
                t >= 0,
                q == t / n,
        ;
    } else {
        let m = (-t) / n;
        assert(0 <= (-m) * n - t < n) by (nonlinear_arith)
            requires
                n > 0,
                t < 0,
                m == (-t) / n,
        ;
    }
}

/// On some axis, two readings differ by more than `limit`.
pub open spec fn moved(seen: Seq<Seq<u8>>, limit: int) -> bool {
    exists|i: int, j: int|
        0 <= i < seen.len() && 0 <= j < seen.len() && {
            ||| axis(#[trigger] seen[i], 0) - axis(#[trigger] seen[j], 0) > limit
            ||| axis(seen[i], 1) - axis(seen[j], 1) > limit
            ||| axis(seen[i], 2) - axis(seen[j], 2) > limit
        }
}

/// One axis of readings.
pub open spec fn column(seen: Seq<Seq<u8>>, k: int) -> Seq<i16> {
    Seq::new(seen.len(), |i: int| axis(seen[i], k) as i16)
}

proof fn lemma_columns(samples: Seq<Sample>, seen: Seq<Seq<u8>>, limit: int)
    requires
        samples.len() == seen.len(),
        forall|i: int| 0 <= i < samples.len() ==> is_sample(#[trigger] samples[i], seen[i]),
    ensures
        calibration::xs(samples) == column(seen, 0),
        calibration::ys(samples) == column(seen, 1),
        calibration::zs(samples) == column(seen, 2),
        calibration::moving(samples, limit) <==> moved(seen, limit),
{
    assert(calibration::xs(samples) =~= column(seen, 0));
    assert(calibration::ys(samples) =~= column(seen, 1));
    assert(calibration::zs(samples) =~= column(seen, 2));
    motion_is_a_difference(samples, limit);
    if differ(samples, limit) {
        let (i, j) = choose|i: int, j: int|
            0 <= i < samples.len() && 0 <= j < samples.len() && {
                ||| (#[trigger] samples[i]).x - (#[trigger] samples[j]).x > limit
                ||| samples[i].y - samples[j].y > limit
                ||| samples[i].z - samples[j].z > limit
            };
        assert(is_sample(samples[i], seen[i]) && is_sample(samples[j], seen[j]));
    }
    if moved(seen, limit) {
        let (i, j) = choose|i: int, j: int|
            0 <= i < seen.len() && 0 <= j < seen.len() && {
                ||| axis(#[trigger] seen[i], 0) - axis(#[trigger] seen[j], 0) > limit
                ||| axis(seen[i], 1) - axis(seen[j], 1) > limit
                ||| axis(seen[i], 2) - axis(seen[j], 2) > limit
            };
        assert(is_sample(samples[i], seen[i]) && is_sample(samples[j], seen[j]));
    }
}

/// A calibration of the accelerometer takes as many samples as were asked for, none of which is
/// left out. It fails, and leaves the calibration alone, if there is no sample, and if on
/// some axis two samples differ by more than the limit. Otherwise the offsets are the averages of
/// the samples, of the Z axis less one g as far as an `i16` holds it, no axis is scaled, and the driver remembers the calibration.
/// Nothing is written to the chip.
#[verifier::spinoff_prover]
#[verifier::rlimit(60)]
pub proof fn accelerometer_calibration_is_the_average<E>(run: Run<E>, count: u16, divisor: i16)
    ensures
        ({
            let (done, found) = accelerometer::calibrate(run, count, divisor);
            let sensitivity = run.state().accel_config.full_scale.sensitivity();
            let limit = calibration::motion_limit(sensitivity, divisor);
            let n = run.saw(Register::AccelXoutH).len() as int;
            let seen = done.saw(Register::AccelXoutH).skip(n);
            &&& effects::only(run, done, set![])
            &&& done.paused() == run.paused()
            &&& count == 0 && run.ok() ==> done.failed == Some(Error::<E>::InvalidConfig) && done.m
                == run.m
            &&& count > 0 && run.ok() && run.works() ==> {
                &&& seen.len() == count
                &&& done.ok() <==> !moved(seen, limit)
                &&& moved(seen, limit) ==> done.failed == Some(Error::<E>::DeviceMoving)
            }
            &&& done.ok() ==> {
                &&& count > 0
                &&& seen.len() == count
                &&& !moved(seen, limit)
                &&& done.state().accel_calibration == found
                &&& run.m.kept(
                    (Model {
                        state: State { accel_calibration: run.state().accel_calibration, ..done.state() },
                        ..done.m
                    }),
                )
                &&& is_average(found.offset_x as int, column(seen, 0))
                &&& is_average(found.offset_y as int, column(seen, 1))
                &&& exists|z: i16|
                    #[trigger] is_average(z as int, column(seen, 2)) && found.offset_z == if z
                        - sensitivity < -32768 {
                        -32768int
                    } else {
                        z - sensitivity
                    }
                &&& found.scale_x_bits == 0x3F80_0000
                &&& found.scale_y_bits == 0x3F80_0000
                &&& found.scale_z_bits == 0x3F80_0000
            }
            &&& !done.ok() ==> run.m.kept(done.m)
        }),
{
    let (sampled, samples) = accelerometer::sample(run, Seq::empty(), count as nat);
    let (done, found) = accelerometer::calibrate(run, count, divisor);
    let sensitivity = run.state().accel_config.full_scale.sensitivity();
    let limit = calibration::motion_limit(sensitivity, divisor);
    lemma_accelerometer_sample(run, Seq::empty(), count as nat);
    if count > 0 && sampled.ok() {
        let n = run.saw(Register::AccelXoutH).len() as int;
        let seen = sampled.saw(Register::AccelXoutH).skip(n);
        assert forall|i: int| 0 <= i < count implies is_sample(
            #[trigger] samples[i],
            seen[i],
        ) by {
            assert(is_sample(samples[i], sampled.saw(Register::AccelXoutH)[n + i]));
        }
        lemma_columns(samples, seen, limit);
        average_is_a_part(calibration::xs(samples));
        average_is_a_part(calibration::ys(samples));
        average_is_a_part(calibration::zs(samples));
        let z: i16 = calibration::average(calibration::zs(samples));
        assert(is_average(z as int, column(seen, 2)));
        assert(done.ok() ==> done.saw(Register::AccelXoutH).skip(n) == seen);
    }
}

/// A calibration of the gyroscope takes as many samples as were asked for, none of which is
/// left out. It fails, and leaves the calibration alone, if there is no sample, and if on
/// some axis two samples differ by more than the limit. Otherwise the offsets are the averages of
/// the samples, no axis is scaled, and the driver remembers the calibration.
/// Nothing is written to the chip.
#[verifier::spinoff_prover]
#[verifier::rlimit(60)]
pub proof fn gyroscope_calibration_is_the_average<E>(run: Run<E>, count: u16, divisor: i16)
    ensures
        ({
            let (done, found) = gyroscope::calibrate(run, count, divisor);
            let sensitivity = run.state().gyro_config.full_scale.sensitivity();
            let limit = calibration::motion_limit(sensitivity, divisor);
            let n = run.saw(Register::GyroXoutH).len() as int;
            let seen = done.saw(Register::GyroXoutH).skip(n);
            &&& effects::only(run, done, set![])
            &&& done.paused() == run.paused()
            &&& count == 0 && run.ok() ==> done.failed == Some(Error::<E>::InvalidConfig) && done.m
                == run.m
            &&& count > 0 && run.ok() && run.works() ==> {
                &&& seen.len() == count
                &&& done.ok() <==> !moved(seen, limit)
                &&& moved(seen, limit) ==> done.failed == Some(Error::<E>::DeviceMoving)
            }
            &&& done.ok() ==> {
                &&& count > 0
                &&& seen.len() == count
                &&& !moved(seen, limit)
                &&& done.state().gyro_calibration == found
                &&& run.m.kept(
                    (Model {
                        state: State { gyro_calibration: run.state().gyro_calibration, ..done.state() },
                        ..done.m
                    }),
                )
                &&& is_average(found.offset_x as int, column(seen, 0))
                &&& is_average(found.offset_y as int, column(seen, 1))
                &&& is_average(found.offset_z as int, column(seen, 2))
                &&& found.scale_x_bits == 0x3F80_0000
                &&& found.scale_y_bits == 0x3F80_0000
                &&& found.scale_z_bits == 0x3F80_0000
            }
            &&& !done.ok() ==> run.m.kept(done.m)
        }),
{
    let (sampled, samples) = gyroscope::sample(run, Seq::empty(), count as nat);
    let (done, found) = gyroscope::calibrate(run, count, divisor);
    let sensitivity = run.state().gyro_config.full_scale.sensitivity();
    let limit = calibration::motion_limit(sensitivity, divisor);
    lemma_gyroscope_sample(run, Seq::empty(), count as nat);
    if count > 0 && sampled.ok() {
        let n = run.saw(Register::GyroXoutH).len() as int;
        let seen = sampled.saw(Register::GyroXoutH).skip(n);
        assert forall|i: int| 0 <= i < count implies is_sample(
            #[trigger] samples[i],
            seen[i],
        ) by {
            assert(is_sample(samples[i], sampled.saw(Register::GyroXoutH)[n + i]));
        }
        lemma_columns(samples, seen, limit);
        average_is_a_part(calibration::xs(samples));
        average_is_a_part(calibration::ys(samples));
        average_is_a_part(calibration::zs(samples));
    }
}

proof fn lemma_self_test_numbers()
    by (bit_vector)
    ensures
        AX_ST_EN | AY_ST_EN | AZ_ST_EN == 0x1Cu8,
        XGYRO_CTEN | YGYRO_CTEN | ZGYRO_CTEN == 0x38u8,
        0x1Cu8 & 0x1Cu8 == 0x1Cu8,
        0x38u8 & 0x38u8 == 0x38u8,
        0x00u8 & 0x1Cu8 == 0x00u8,
        0x00u8 & 0x38u8 == 0x00u8,
        0x00u8 & 0x06u8 == 0x00u8,
        ACCEL_FS_SEL == 0x06u8,
        GYRO_FS_SEL == 0x06u8,
{
}

/// A self-test measures twice, in the smallest range: first with the self-test off, then,
/// after 20 milliseconds, with it on for all three axes. Then it is off again, and the
/// settings are those that the driver remembers. It is passed if and only if it moved every
/// axis by more than 225 counts, either way.
#[verifier::spinoff_prover]
#[verifier::rlimit(60)]
pub proof fn accelerometer_self_test_measures_twice<E>(run: Run<E>)
    ensures
        ({
            let (done, off, on) = accelerometer::self_test(run);
            let n = run.saw(Register::AccelXoutH).len() as int;
            let seen = done.saw(Register::AccelXoutH);
            let tests = effects::moments(done.m.trace, Register::AccelXoutH, Register::AccelConfig2);
            let ranges = effects::moments(done.m.trace, Register::AccelXoutH, Register::AccelConfig);
            let times = effects::waits(done.m.trace, Register::AccelXoutH);
            let m = effects::moments(run.m.trace, Register::AccelXoutH, Register::AccelConfig2).len() as int;
            let r = effects::moments(run.m.trace, Register::AccelXoutH, Register::AccelConfig).len() as int;
            let w = effects::waits(run.m.trace, Register::AccelXoutH).len() as int;
            let bits = done.wrote(Register::AccelConfig).last() & 0x3F;
            let config = run.state().accel_config;
            let switch = done.wrote(Register::AccelConfig2);
            let k = run.wrote(Register::AccelConfig2).len() as int;
            &&& effects::goes_through(run, done)
            &&& done.ok() ==> {
                &&& seen == run.saw(Register::AccelXoutH).push(seen[n]).push(seen[n + 1])
                &&& off.x == axis(seen[n], 0) && on.x == axis(seen[n + 1], 0)
                &&& off.y == axis(seen[n], 1) && on.y == axis(seen[n + 1], 1)
                &&& off.z == axis(seen[n], 2) && on.z == axis(seen[n + 1], 2)
                &&& tests.len() == m + 2 && ranges.len() == r + 2 && times.len() == w + 2
                &&& tests[m] == run.wrote(Register::AccelConfig2)
                &&& tests[m + 1].last() & 0x1C == 0x1C
                &&& ranges[r].last() & 0x06 == 0
                &&& ranges[r + 1] == ranges[r]
                &&& times[w] == run.paused()
                &&& times[w + 1] == run.paused().push(Pause::Ms(20))
                &&& switch == run.wrote(Register::AccelConfig2).push(switch[k]).push(switch[k + 1])
                &&& switch[k + 1] & 0x1C == 0
                &&& (bits % 2 == 1) == config.dlpf_enable
                &&& (bits / 2) % 4 == config.full_scale.code()
                &&& bits / 8 == config.dlpf.code()
                &&& done.paused() == run.paused().push(Pause::Ms(20))
                &&& run.m.kept(done.m)
            }
            &&& accelerometer::passes(off, on) <==> {
                &&& on.x - off.x > 225 || off.x - on.x > 225
                &&& on.y - off.y > 225 || off.y - on.y > 225
                &&& on.z - off.z > 225 || off.z - on.z > 225
            }
        }),
{
    lemma_self_test_numbers();
    let ready = run.select(Bank::Bank2);
    let ranged = ready.modify(Register::AccelConfig, ACCEL_FS_SEL, 0);
    let (before, off) = accelerometer::take(ranged);
    let chosen = before.select(Bank::Bank2);
    let bits = accelerometer::self_test_bits();
    let (after, on) = accelerometer::take(chosen.modify(Register::AccelConfig2, bits, bits).ms(20));
    let again = after.select(Bank::Bank2);
    let cleared = again.modify(Register::AccelConfig2, bits, 0);
    accelerometer_reading_is_six_bytes(ranged);
    accelerometer_reading_is_six_bytes(chosen.modify(Register::AccelConfig2, bits, bits).ms(20));
    settings::accelerometer_settings_are_bits(cleared, run.state().accel_config);
    if accelerometer::self_test(run).0.ok() {
        effects::lemma_rewrote(ready, Register::AccelConfig, ACCEL_FS_SEL, 0);
        effects::lemma_rewrote(chosen, Register::AccelConfig2, bits, bits);
        effects::lemma_rewrote(again, Register::AccelConfig2, bits, 0);
    }
}

/// A self-test measures twice, in the smallest range: first with the self-test off, then,
/// after 20 milliseconds, with it on for all three axes. Then it is off again, and the
/// settings are those that the driver remembers. It is passed if and only if it moved every
/// axis by more than 60 counts, either way.
#[verifier::spinoff_prover]
#[verifier::rlimit(60)]
pub proof fn gyroscope_self_test_measures_twice<E>(run: Run<E>)
    ensures
        ({
            let (done, off, on) = gyroscope::self_test(run);
            let n = run.saw(Register::GyroXoutH).len() as int;
            let seen = done.saw(Register::GyroXoutH);
            let tests = effects::moments(done.m.trace, Register::GyroXoutH, Register::GyroConfig2);
            let ranges = effects::moments(done.m.trace, Register::GyroXoutH, Register::GyroConfig1);
            let times = effects::waits(done.m.trace, Register::GyroXoutH);
            let m = effects::moments(run.m.trace, Register::GyroXoutH, Register::GyroConfig2).len() as int;
            let r = effects::moments(run.m.trace, Register::GyroXoutH, Register::GyroConfig1).len() as int;
            let w = effects::waits(run.m.trace, Register::GyroXoutH).len() as int;
            let bits = done.wrote(Register::GyroConfig1).last() & 0x3F;
            let config = run.state().gyro_config;
            let switch = done.wrote(Register::GyroConfig2);
            let k = run.wrote(Register::GyroConfig2).len() as int;
            &&& effects::goes_through(run, done)
            &&& done.ok() ==> {
                &&& seen == run.saw(Register::GyroXoutH).push(seen[n]).push(seen[n + 1])
                &&& off.x == axis(seen[n], 0) && on.x == axis(seen[n + 1], 0)
                &&& off.y == axis(seen[n], 1) && on.y == axis(seen[n + 1], 1)
                &&& off.z == axis(seen[n], 2) && on.z == axis(seen[n + 1], 2)
                &&& tests.len() == m + 2 && ranges.len() == r + 2 && times.len() == w + 2
                &&& tests[m] == run.wrote(Register::GyroConfig2)
                &&& tests[m + 1].last() & 0x38 == 0x38
                &&& ranges[r].last() & 0x06 == 0
                &&& ranges[r + 1] == ranges[r]
                &&& times[w] == run.paused()
                &&& times[w + 1] == run.paused().push(Pause::Ms(20))
                &&& switch == run.wrote(Register::GyroConfig2).push(switch[k]).push(switch[k + 1])
                &&& switch[k + 1] & 0x38 == 0
                &&& (bits % 2 == 1) == config.dlpf_enable
                &&& (bits / 2) % 4 == config.full_scale.code()
                &&& bits / 8 == config.dlpf.code()
                &&& done.paused() == run.paused().push(Pause::Ms(20))
                &&& run.m.kept(done.m)
            }
            &&& gyroscope::passes(off, on) <==> {
                &&& on.x - off.x > 60 || off.x - on.x > 60
                &&& on.y - off.y > 60 || off.y - on.y > 60
                &&& on.z - off.z > 60 || off.z - on.z > 60
            }
        }),
{
    lemma_self_test_numbers();
    let ready = run.select(Bank::Bank2);
    let ranged = ready.modify(Register::GyroConfig1, GYRO_FS_SEL, 0);
    let (before, off) = gyroscope::take(ranged);
    let chosen = before.select(Bank::Bank2);
    let bits = gyroscope::self_test_bits();
    let (after, on) = gyroscope::take(chosen.modify(Register::GyroConfig2, bits, bits).ms(20));
    let again = after.select(Bank::Bank2);
    let cleared = again.modify(Register::GyroConfig2, bits, 0);
    gyroscope_reading_is_six_bytes(ranged);
    gyroscope_reading_is_six_bytes(chosen.modify(Register::GyroConfig2, bits, bits).ms(20));
    settings::gyroscope_settings_are_bits(cleared, run.state().gyro_config);
    if gyroscope::self_test(run).0.ok() {
        effects::lemma_rewrote(ready, Register::GyroConfig1, GYRO_FS_SEL, 0);
        effects::lemma_rewrote(chosen, Register::GyroConfig2, bits, bits);
        effects::lemma_rewrote(again, Register::GyroConfig2, bits, 0);
    }
}

/// Each range of the accelerometer is twice the one before: its code counts the doublings
/// of 2 g, and what it has in counts per g fills the range of an `i16`.
pub proof fn accelerometer_ranges_double(range: AccelFullScale)
    ensures
        ({
            let g = match range {
                AccelFullScale::G2 => 2int,
                AccelFullScale::G4 => 4int,
                AccelFullScale::G8 => 8int,
                AccelFullScale::G16 => 16int,
            };
            &&& range.sensitivity() * g == 32768
            &&& range.code() < 4
            &&& g == if range.code() == 0 {
                2int
            } else if range.code() == 1 {
                4int
            } else if range.code() == 2 {
                8int
            } else {
                16int
            }
        }),
{
}

/// Each range of the gyroscope is twice the one before: its code counts the doublings of
/// 250 degrees per second, and what it has in whole counts per degree per second is 131,
/// halved as often and rounded down.
pub proof fn gyroscope_ranges_double(range: GyroFullScale)
    ensures
        ({
            let doublings = match range {
                GyroFullScale::Dps250 => 1int,
                GyroFullScale::Dps500 => 2int,
                GyroFullScale::Dps1000 => 4int,
                GyroFullScale::Dps2000 => 8int,
            };
            &&& range.sensitivity() == 131int / doublings
            &&& range.code() < 4
            &&& doublings == if range.code() == 0 {
                1int
            } else if range.code() == 1 {
                2int
            } else if range.code() == 2 {
                4int
            } else {
                8int
            }
        }),
{
}

/// The bandwidth of a filter of the accelerometer, in hertz.
pub open spec fn accel_bandwidth(filter: AccelDlpf) -> int {
    match filter {
        AccelDlpf::Hz246 => 246,
        AccelDlpf::Hz111 => 111,
        AccelDlpf::Hz50 => 50,
        AccelDlpf::Hz24 => 24,
        AccelDlpf::Hz11 => 11,
        AccelDlpf::Hz6 => 6,
        AccelDlpf::Hz473 => 473,
    }
}

/// The bandwidth of a filter of the gyroscope, in hertz.
pub open spec fn gyro_bandwidth(filter: GyroDlpf) -> int {
    match filter {
        GyroDlpf::Hz197 => 197,
        GyroDlpf::Hz152 => 152,
        GyroDlpf::Hz120 => 120,
        GyroDlpf::Hz51 => 51,
        GyroDlpf::Hz24 => 24,
        GyroDlpf::Hz12 => 12,
        GyroDlpf::Hz6 => 6,
        GyroDlpf::Hz361 => 361,
    }
}

/// The narrower the filter, the higher its code, but that the widest has the highest.
pub proof fn filters_narrow_with_their_codes(a: AccelDlpf, b: AccelDlpf, c: GyroDlpf, d: GyroDlpf)
    ensures
        1 <= a.code() <= 7,
        a.code() == 7 <==> accel_bandwidth(a) == 473,
        a.code() < 7 && b.code() < 7 ==> (a.code() < b.code() <==> accel_bandwidth(a)
            > accel_bandwidth(b)),
        0 <= c.code() <= 7,
        c.code() == 7 <==> gyro_bandwidth(c) == 361,
        c.code() < 7 && d.code() < 7 ==> (c.code() < d.code() <==> gyro_bandwidth(c)
            > gyro_bandwidth(d)),
{
}

} // verus!
