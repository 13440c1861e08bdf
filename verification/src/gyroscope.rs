//! The gyroscope.

use vstd::prelude::*;

use crate::calibration;
use crate::calibration::{limit_of, Sample, Tallies, DEFAULT_MOTION_DETECTION_THRESHOLD_DIVISOR};
use crate::device;
use crate::device::{flag, GyroData, Icm20948Driver};
use crate::interface::{Delay, Interface};
use crate::registers::{
    Register, GYRO_CYCLE, GYRO_DLPFCFG, GYRO_FCHOICE, GYRO_FS_SEL, XGYRO_CTEN, YGYRO_CTEN,
    ZGYRO_CTEN,
};
use crate::script;
use crate::script::{Run, State};
use crate::sensors::{GyroCalibration, GyroConfig, GyroFullScale};
use crate::{Bank, Error};

verus! {

broadcast use crate::script::group_steps;

/// The self-test has to move each axis by more than this many counts.
pub const MIN_RESPONSE: i16 = 60;

/// Writes the settings. The driver remembers them as soon as the last of them is
/// written.
pub open spec fn configure<E>(run: Run<E>, config: GyroConfig) -> Run<E> {
    let written = run.select(Bank::Bank0).modify(Register::LpConfig, GYRO_CYCLE, 0).select(
        Bank::Bank2,
    ).modify(
        Register::GyroConfig1,
        GYRO_FS_SEL | GYRO_DLPFCFG | GYRO_FCHOICE,
        config_bits(config),
    ).put(Register::GyroSmplrtDiv, config.sample_rate_div);
    written.remember(State { gyro_config: config, ..written.state() }).select(Bank::Bank0)
}

/// What `GYRO_CONFIG_1` holds of the settings: the filter in bits 5 to 3, the full
/// scale in bits 2 and 1, the use of the filter in bit 0.
pub open spec fn config_bits(config: GyroConfig) -> u8 {
    (8 * config.dlpf.code() + 2 * config.full_scale.code() + if config.dlpf_enable {
        1int
    } else {
        0int
    }) as u8
}

/// A reading with the offsets taken off, and what it takes to express it in
/// degrees per second: each axis is multiplied by its factor and divided by the
/// counts per degree per second.
#[derive(Debug, Clone, Copy, PartialEq, Eq, Structural)]
pub struct GyroReading {
    /// X axis, in counts.
    pub x: i32,
    /// Y axis, in counts.
    pub y: i32,
    /// Z axis, in counts.
    pub z: i32,
    /// Bits of the factor of the X axis.
    pub scale_x_bits: u32,
    /// Bits of the factor of the Y axis.
    pub scale_y_bits: u32,
    /// Bits of the factor of the Z axis.
    pub scale_z_bits: u32,
    /// The range that the reading was taken in.
    pub full_scale: GyroFullScale,
}

/// The reading that `data` is under the calibration and in the range that the
/// driver remembers.
pub open spec fn corrected(data: GyroData, state: State) -> GyroReading {
    GyroReading {
        x: (data.x - state.gyro_calibration.offset_x) as i32,
        y: (data.y - state.gyro_calibration.offset_y) as i32,
        z: (data.z - state.gyro_calibration.offset_z) as i32,
        scale_x_bits: state.gyro_calibration.scale_x_bits,
        scale_y_bits: state.gyro_calibration.scale_y_bits,
        scale_z_bits: state.gyro_calibration.scale_z_bits,
        full_scale: state.gyro_config.full_scale,
    }
}

/// Reads the gyroscope: the run, and the reading.
pub open spec fn take<E>(run: Run<E>) -> (Run<E>, GyroData) {
    let r = run.select(Bank::Bank0);
    (r.read(Register::GyroXoutH, 48, 6), device::gyro_of(r.next(6)))
}

/// Reads the gyroscope without calibration: the run, and the three axes.
pub open spec fn read_raw<E>(run: Run<E>) -> (Run<E>, (i16, i16, i16)) {
    let (taken, data) = take(run);
    (taken, (data.x, data.y, data.z))
}

/// Reads the gyroscope with the offsets taken off: the run, and the reading.
pub open spec fn read<E>(run: Run<E>) -> (Run<E>, GyroReading) {
    let (taken, data) = take(run);
    (taken, corrected(data, run.state()))
}

/// Reads the gyroscope until there are `count` samples, with those in
/// `samples`: the run, and all the samples.
pub open spec fn sample<E>(run: Run<E>, samples: Seq<Sample>, count: nat) -> (Run<E>, Seq<Sample>)
    decreases count - samples.len(),
{
    if run.failed is Some || samples.len() >= count {
        (run, samples)
    } else {
        let (taken, data) = take(run);
        sample(taken, samples.push(Sample { x: data.x, y: data.y, z: data.z }), count)
    }
}

/// The calibration of samples that were taken at rest: the averages.
pub open spec fn calibration_of(samples: Seq<Sample>) -> GyroCalibration {
    GyroCalibration::spec_offsets(
        calibration::average(calibration::xs(samples)),
        calibration::average(calibration::ys(samples)),
        calibration::average(calibration::zs(samples)),
    )
}

/// Calibrates: the run, and the calibration. Without samples, and when the
/// device moved, it fails.
pub open spec fn calibrate<E>(run: Run<E>, count: u16, divisor: i16) -> (Run<E>, GyroCalibration) {
    let (sampled, samples) = sample(run, Seq::empty(), count as nat);
    let found = calibration_of(samples);
    if count == 0 {
        (run.fail(Error::InvalidConfig), found)
    } else if calibration::moving(
        samples,
        calibration::motion_limit(run.state().gyro_config.full_scale.sensitivity(), divisor),
    ) {
        (sampled.fail(Error::DeviceMoving), found)
    } else {
        (sampled.remember(State { gyro_calibration: found, ..sampled.state() }), found)
    }
}

/// A device at rest reads as it stands: after a calibration with samples that were all
/// the same, such a reading is 0 on every axis.
pub proof fn rest_reads_zero(samples: Seq<Sample>, at_rest: GyroData, state: State)
    requires
        samples.len() > 0,
        forall|i: int|
            0 <= i < samples.len() ==> #[trigger] samples[i] == (Sample {
                x: at_rest.x,
                y: at_rest.y,
                z: at_rest.z,
            }),
        state.gyro_calibration == calibration_of(samples),
    ensures
        corrected(at_rest, state).x == 0,
        corrected(at_rest, state).y == 0,
        corrected(at_rest, state).z == 0,
{
    calibration::average_of_constant(calibration::xs(samples), at_rest.x);
    calibration::average_of_constant(calibration::ys(samples), at_rest.y);
    calibration::average_of_constant(calibration::zs(samples), at_rest.z);
}

/// The bits of `GYRO_CONFIG_2` that turn the self-test on.
pub open spec fn self_test_bits() -> u8 {
    XGYRO_CTEN | YGYRO_CTEN | ZGYRO_CTEN
}

/// Runs the self-test and restores the settings: the run, the reading without and
/// the reading with the self-test.
pub open spec fn self_test<E>(run: Run<E>) -> (Run<E>, GyroData, GyroData) {
    let (before, off) = take(
        run.select(Bank::Bank2).modify(Register::GyroConfig1, GYRO_FS_SEL, 0),
    );
    let (after, on) = take(
        before.select(Bank::Bank2).modify(
            Register::GyroConfig2,
            self_test_bits(),
            self_test_bits(),
        ).ms(20),
    );
    (
        configure(
            after.select(Bank::Bank2).modify(Register::GyroConfig2, self_test_bits(), 0),
            run.state().gyro_config,
        ),
        off,
        on,
    )
}

/// Whether the self-test moved an axis far enough.
pub open spec fn responds(off: i16, on: i16) -> bool {
    calibration::magnitude(on - off) > MIN_RESPONSE
}

/// Whether the self-test moved every axis far enough.
pub open spec fn passes(off: GyroData, on: GyroData) -> bool {
    responds(off.x, on.x) && responds(off.y, on.y) && responds(off.z, on.z)
}

/// Whether the self-test moved an axis far enough.
fn check_response(off: i16, on: i16) -> (good: bool)
    ensures
        good == responds(off, on),
{
    let response: i32 = (on as i32) - (off as i32);
    response > MIN_RESPONSE as i32 || response < -(MIN_RESPONSE as i32)
}

impl<I: Interface> Icm20948Driver<I> {
    /// Sets the range, the filter and the sample rate of the gyroscope, and
    /// makes it run continuously, without which the sample rate has no effect.
    pub fn configure_gyroscope(&mut self, config: GyroConfig) -> (res: Result<
        (),
        Error<I::Error>,
    >)
        ensures
            configure(old(self)@.run(), config).ends(final(self)@, res),
            res is Ok ==> final(self)@.state == (State {
                bank: Some(Bank::Bank0),
                gyro_config: config,
                ..old(self)@.state
            }),
            config == old(self)@.state.gyro_config ==> old(self)@.at_once(final(self)@),
            old(self)@.in_order(final(self)@),
    {
        self.select_bank(Bank::Bank0)?;
        self.modify(Register::LpConfig, GYRO_CYCLE, 0)?;
        self.select_bank(Bank::Bank2)?;
        self.modify(
            Register::GyroConfig1,
            GYRO_FS_SEL | GYRO_DLPFCFG | GYRO_FCHOICE,
            8 * config.dlpf.code() + 2 * config.full_scale.code() + flag(1, config.dlpf_enable),
        )?;
        self.put(Register::GyroSmplrtDiv, config.sample_rate_div)?;
        let state = self.state();
        self.remember(State { gyro_config: config, ..state });
        self.select_bank(Bank::Bank0)
    }

    /// Reads the gyroscope, in counts and without calibration.
    pub fn read_gyroscope_raw(&mut self) -> (res: Result<(i16, i16, i16), Error<I::Error>>)
        ensures
            ({
                let (run, value) = read_raw(old(self)@.run());
                run.yields(final(self)@, res, value)
            }),
            res is Ok ==> old(self)@.moved_to(final(self)@, Bank::Bank0),
            old(self)@.at_once(final(self)@),
    {
        let data = self.read_gyro()?;
        Ok((data.x, data.y, data.z))
    }

    /// Reads the gyroscope and takes the offsets of the calibration off. The
    /// result is in counts, with what it takes to express it in degrees per
    /// second.
    pub fn read_gyroscope(&mut self) -> (res: Result<GyroReading, Error<I::Error>>)
        ensures
            ({
                let (run, value) = read(old(self)@.run());
                run.yields(final(self)@, res, value)
            }),
            res is Ok ==> old(self)@.moved_to(final(self)@, Bank::Bank0),
            old(self)@.at_once(final(self)@),
    {
        let data = self.read_gyro()?;
        let calibration = self.state().gyro_calibration;
        Ok(
            GyroReading {
                x: (data.x as i32) - (calibration.offset_x as i32),
                y: (data.y as i32) - (calibration.offset_y as i32),
                z: (data.z as i32) - (calibration.offset_z as i32),
                scale_x_bits: calibration.scale_x_bits,
                scale_y_bits: calibration.scale_y_bits,
                scale_z_bits: calibration.scale_z_bits,
                full_scale: self.state().gyro_config.full_scale,
            },
        )
    }

    /// Sets the calibration of the gyroscope.
    pub fn set_gyroscope_calibration(&mut self, calibration: GyroCalibration)
        ensures
            ({
                let run = old(self)@.run();
                run.remember(State { gyro_calibration: calibration, ..run.state() })
                    == final(self)@.run()
            }),
            final(self)@.state == (State { gyro_calibration: calibration, ..old(self)@.state }),
            old(self)@.in_order(final(self)@),
    {
        let state = self.state();
        self.remember(State { gyro_calibration: calibration, ..state });
    }

    /// The calibration of the gyroscope.
    pub fn gyroscope_calibration(&self) -> (calibration: GyroCalibration)
        ensures
            calibration == self@.state.gyro_calibration,
    {
        self.state().gyro_calibration
    }

    /// Calibrates the gyroscope with the usual tolerance for motion.
    pub fn calibrate_gyroscope(&mut self, samples: u16) -> (res: Result<
        GyroCalibration,
        Error<I::Error>,
    >)
        ensures
            ({
                let (run, calibration) = calibrate(
                    old(self)@.run(),
                    samples,
                    DEFAULT_MOTION_DETECTION_THRESHOLD_DIVISOR,
                );
                run.yields(final(self)@, res, calibration)
            }),
            res matches Ok(calibration) ==> final(self)@.state == (State {
                bank: Some(Bank::Bank0),
                gyro_calibration: calibration,
                ..old(self)@.state
            }),
            res is Err ==> old(self)@.kept(final(self)@),
            old(self)@.in_order(final(self)@),
    {
        self.calibrate_gyroscope_with_threshold(
            samples,
            DEFAULT_MOTION_DETECTION_THRESHOLD_DIVISOR,
        )
    }

    /// Calibrates the gyroscope from a number of samples, while the device lies
    /// still. Samples of one axis may differ by one degree per second divided by
    /// `motion_threshold_divisor`.
    pub fn calibrate_gyroscope_with_threshold(
        &mut self,
        samples: u16,
        motion_threshold_divisor: i16,
    ) -> (res: Result<GyroCalibration, Error<I::Error>>)
        requires
            samples == 0 || motion_threshold_divisor != 0,
        ensures
            ({
                let (run, calibration) = calibrate(
                    old(self)@.run(),
                    samples,
                    motion_threshold_divisor,
                );
                run.yields(final(self)@, res, calibration)
            }),
            res matches Ok(calibration) ==> final(self)@.state == (State {
                bank: Some(Bank::Bank0),
                gyro_calibration: calibration,
                ..old(self)@.state
            }),
            res is Err ==> old(self)@.kept(final(self)@),
            old(self)@.in_order(final(self)@),
    {
        proof {
            reveal(Run::fail);
        }
        if samples == 0 {
            return Err(Error::InvalidConfig);
        }
        let mut tallies = Tallies::new();
        let mut taken: u16 = 0;
        let ghost mut data: Seq<Sample> = Seq::empty();
        while taken < samples
            invariant
                taken <= samples,
                taken == data.len(),
                tallies.keeps(data),
                taken > 0 ==> old(self)@.moved_to(self@, Bank::Bank0),
                taken == 0 ==> self@ == old(self)@,
                sample(old(self)@.run(), Seq::empty(), samples as nat) == sample(
                    self@.run(),
                    data,
                    samples as nat,
                ),
                old(self)@.at_once(self@),
            decreases samples - taken,
        {
            proof {
                reveal_with_fuel(sample, 2);
            }
            let reading = self.read_gyro()?;
            let next = Sample { x: reading.x, y: reading.y, z: reading.z };
            tallies.count(next, Ghost(data));
            proof {
                data = data.push(next);
            }
            taken += 1;
        }
        let sensitivity: i16 = self.state().gyro_config.full_scale.sensitivity();
        if tallies.moving(limit_of(sensitivity, motion_threshold_divisor), Ghost(data)) {
            return Err(Error::DeviceMoving);
        }
        let average = tallies.average(samples, Ghost(data));
        let calibration = GyroCalibration::offsets(average.x, average.y, average.z);
        let state = self.state();
        self.remember(State { gyro_calibration: calibration, ..state });
        Ok(calibration)
    }

    /// Runs the self-test of the gyroscope, in the range of 250 degrees per
    /// second, and returns whether it moved every axis by more than [`MIN_RESPONSE`] counts. The
    /// settings are as before afterwards.
    pub fn gyroscope_self_test<D: Delay>(&mut self, delay: &mut D) -> (res: Result<
        bool,
        Error<I::Error>,
    >)
        ensures
            ({
                let (run, off, on) = self_test(old(self)@.run());
                run.yields(final(self)@, res, passes(off, on))
            }),
            res is Ok ==> old(self)@.moved_to(final(self)@, Bank::Bank0),
            old(self)@.waited(final(self)@, old(delay).log(), final(delay).log()),
    {
        proof {
            script::lemma_since_start(self@, delay.log());
        }
        let config = self.state().gyro_config;
        self.select_bank(Bank::Bank2)?;
        self.modify(Register::GyroConfig1, GYRO_FS_SEL, 0)?;
        let (x_off, y_off, z_off) = self.read_gyroscope_raw()?;
        self.select_bank(Bank::Bank2)?;
        self.modify(
            Register::GyroConfig2,
            XGYRO_CTEN | YGYRO_CTEN | ZGYRO_CTEN,
            XGYRO_CTEN | YGYRO_CTEN | ZGYRO_CTEN,
        )?;
        self.pause_ms(delay, 20);
        let (x_on, y_on, z_on) = self.read_gyroscope_raw()?;
        self.select_bank(Bank::Bank2)?;
        self.modify(Register::GyroConfig2, XGYRO_CTEN | YGYRO_CTEN | ZGYRO_CTEN, 0)?;
        let good = check_response(x_off, x_on) && check_response(y_off, y_on) && check_response(
            z_off,
            z_on,
        );
        self.configure_gyroscope(config)?;
        Ok(good)
    }
}

} // verus!
