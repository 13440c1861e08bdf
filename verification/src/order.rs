//! Laws on the order in which an operation touches the chip: what it reads and writes before
//! what, and where it gives the chip time.

use vstd::prelude::*;

use crate::accelerometer;
use crate::compass;
use crate::device;
use crate::dmp;
use crate::effects;
use crate::effects::Touch;
use crate::fifo;
use crate::fifo::FifoConfigAdvanced;
use crate::gyroscope;
use crate::interface::Pause;
use crate::interrupt;
use crate::interrupt::InterruptConfig;
use crate::magnetometer;
use crate::magnetometer::{MagMode, MAX_RETRIES};
use crate::nonblocking;
use crate::power;
use crate::power::LowPowerConfig;
use crate::registers::{Register, I2C_MST_CYCLE, I2C_SLV_EN, I2C_SLV_RNW};
use crate::script::Run;
use crate::sensors::{AccelConfig, GyroConfig};
use crate::Bank;

verus! {

broadcast use crate::effects::group_order;

/// How the chip is touched while a transfer is waited for: the status is read so many times,
/// and one more, a millisecond apart.
pub open spec fn polling(more: nat) -> Seq<Touch>
    decreases more,
{
    if more == 0 {
        seq![Touch::Read(Register::I2cMstStatus)]
    } else {
        seq![Touch::Read(Register::I2cMstStatus), Touch::Pause(Pause::Ms(1))] + polling(
            (more - 1) as nat,
        )
    }
}

proof fn lemma_polling<E>(run: Run<E>, retries: int) -> (more: nat)
    requires
        magnetometer::poll_done(run, retries).ok(),
    ensures
        effects::follows(run, magnetometer::poll_done(run, retries), polling(more)),
    decreases MAX_RETRIES + 1 - retries,
{
    let done = magnetometer::poll_done(run, retries);
    let read = run.get(Register::I2cMstStatus);
    if done == read {
        assert(effects::touches(done.m.trace) =~= effects::touches(run.m.trace) + polling(0));
        0
    } else {
        let then = read.ms(1);
        let rest = lemma_polling(then, retries + 1);
        assert(effects::touches(done.m.trace) =~= effects::touches(run.m.trace) + polling(
            rest + 1,
        ));
        rest + 1
    }
}

/// How the chip is touched by a transfer to the magnetometer: the last status is cleared and
/// the I2C master started; slave 4 is told the address, the register and, for a write, the
/// value, and only then set going; the status is asked for; and the I2C master is stopped.
pub open spec fn transferring(write: bool, more: nat) -> Seq<Touch> {
    seq![
        Touch::Read(Register::I2cMstStatus),
        Touch::Read(Register::LpConfig),
        Touch::Write(Register::LpConfig),
        Touch::Pause(Pause::Ms(1)),
        Touch::Write(Register::I2cSlv4Addr),
        Touch::Write(Register::I2cSlv4Reg),
    ] + (if write {
        seq![Touch::Write(Register::I2cSlv4Do)]
    } else {
        seq![]
    }) + seq![Touch::Write(Register::I2cSlv4Ctrl)] + polling(more) + seq![
        Touch::Read(Register::LpConfig),
        Touch::Write(Register::LpConfig),
    ]
}

/// A value is there before the transfer that carries it begins, and the transfer is waited
/// for.
pub proof fn write_begins_last<E>(run: Run<E>, reg: u8, value: u8) -> (more: nat)
    ensures
        magnetometer::write_mag(run, reg, value).ok() ==> effects::follows(
            run,
            magnetometer::write_mag(run, reg, value),
            transferring(true, more),
        ),
{
    reveal(magnetometer::write_mag);
    let done = magnetometer::write_mag(run, reg, value);
    let sent = magnetometer::send_write(run, reg, value).select(Bank::Bank0);
    if done.ok() {
        let more = lemma_polling(sent, 0);
        assert(effects::touches(done.m.trace) =~= effects::touches(run.m.trace) + transferring(
            true,
            more,
        ));
        more
    } else {
        0
    }
}

/// The answer is read after the transfer was waited for.
pub proof fn answer_comes_last<E>(run: Run<E>, reg: u8) -> (more: nat)
    ensures
        magnetometer::read_mag(run, reg).0.ok() ==> effects::follows(
            run,
            magnetometer::read_mag(run, reg).0,
            transferring(false, more).push(Touch::Read(Register::I2cSlv4Di)),
        ),
{
    reveal(magnetometer::read_mag);
    let done = magnetometer::read_mag(run, reg).0;
    let sent = magnetometer::begin_transfer(run).put(
        Register::I2cSlv4Addr,
        magnetometer::AK09916_I2C_ADDRESS | I2C_SLV_RNW,
    ).put(Register::I2cSlv4Reg, reg).put(Register::I2cSlv4Ctrl, I2C_SLV_EN).select(Bank::Bank0);
    if done.ok() {
        let more = lemma_polling(sent, 0);
        assert(effects::touches(done.m.trace) =~= effects::touches(run.m.trace) + transferring(
            false,
            more,
        ).push(Touch::Read(Register::I2cSlv4Di)));
        more
    } else {
        0
    }
}

/// Once the magnetometer has answered, slave 0 is pointed at it, it is told its mode, and the
/// duty cycle of the I2C master begins.
pub proof fn reading_starts_in_order<E>(run: Run<E>, mode: MagMode) -> (more: nat)
    ensures
        magnetometer::start_reading(run, mode).ok() ==> effects::follows(
            run,
            magnetometer::start_reading(run, mode),
            seq![
                Touch::Write(Register::I2cSlv0Addr),
                Touch::Write(Register::I2cSlv0Reg),
                Touch::Write(Register::I2cSlv0Ctrl),
                Touch::Pause(Pause::Ms(10)),
            ] + transferring(true, more) + seq![
                Touch::Pause(Pause::Ms(10)),
                Touch::Read(Register::LpConfig),
                Touch::Write(Register::LpConfig),
                Touch::Pause(Pause::Ms(10)),
            ],
        ),
{
    let done = magnetometer::start_reading(run, mode);
    let pointed = magnetometer::point_slave0(run);
    slave_is_set_going_last(run);
    let more = write_begins_last(pointed, magnetometer::AK09916_REG_CNTL2, mode.code());
    compass::magnetometer_write_is_a_transfer(
        pointed,
        magnetometer::AK09916_REG_CNTL2,
        mode.code(),
    );
    if done.ok() {
        let was = effects::touches(run.m.trace);
        let first = seq![
            Touch::Write(Register::I2cSlv0Addr),
            Touch::Write(Register::I2cSlv0Reg),
            Touch::Write(Register::I2cSlv0Ctrl),
            Touch::Pause(Pause::Ms(10)),
        ];
        let last = seq![
            Touch::Pause(Pause::Ms(10)),
            Touch::Read(Register::LpConfig),
            Touch::Write(Register::LpConfig),
            Touch::Pause(Pause::Ms(10)),
        ];
        let sent = magnetometer::write_mag(
            pointed,
            magnetometer::AK09916_REG_CNTL2,
            mode.code(),
        );
        let ready = sent.ms(10).select(Bank::Bank0).modify(
            Register::LpConfig,
            I2C_MST_CYCLE,
            I2C_MST_CYCLE,
        ).ms(10);
        assert(effects::touches(pointed.m.trace) == was + first);
        assert(effects::touches(sent.m.trace) == was + first + transferring(true, more));
        assert(done.m.trace == ready.m.trace);
        assert(effects::touches(ready.m.trace) =~= effects::touches(sent.m.trace) + last);
        assert(was + first + transferring(true, more) + last =~= was + (first + transferring(
            true,
            more,
        ) + last));
    }
    more
}

/// The duty cycle of the accelerometer ends before its settings are written.
pub proof fn accelerometer_is_set_in_order<E>(run: Run<E>, config: AccelConfig)
    ensures
        ({
            let done = accelerometer::configure(run, config);
            &&& done.ok() ==> effects::follows(
                run,
                done,
                seq![
                    Touch::Read(Register::LpConfig),
                    Touch::Write(Register::LpConfig),
                    Touch::Read(Register::AccelConfig),
                    Touch::Write(Register::AccelConfig),
                    Touch::Write(Register::AccelSmplrtDiv1),
                    Touch::Write(Register::AccelSmplrtDiv2),
                ],
            )
        }),
{
    let done = accelerometer::configure(run, config);
    if done.ok() {
        assert(effects::touches(done.m.trace) =~= effects::touches(run.m.trace) + seq![
            Touch::Read(Register::LpConfig),
            Touch::Write(Register::LpConfig),
            Touch::Read(Register::AccelConfig),
            Touch::Write(Register::AccelConfig),
            Touch::Write(Register::AccelSmplrtDiv1),
            Touch::Write(Register::AccelSmplrtDiv2),
        ]);
    }
}

/// The duty cycle of the gyroscope ends before its settings are written.
pub proof fn gyroscope_is_set_in_order<E>(run: Run<E>, config: GyroConfig)
    ensures
        ({
            let done = gyroscope::configure(run, config);
            &&& done.ok() ==> effects::follows(
                run,
                done,
                seq![
                    Touch::Read(Register::LpConfig),
                    Touch::Write(Register::LpConfig),
                    Touch::Read(Register::GyroConfig1),
                    Touch::Write(Register::GyroConfig1),
                    Touch::Write(Register::GyroSmplrtDiv),
                ],
            )
        }),
{
    let done = gyroscope::configure(run, config);
    if done.ok() {
        assert(effects::touches(done.m.trace) =~= effects::touches(run.m.trace) + seq![
            Touch::Read(Register::LpConfig),
            Touch::Write(Register::LpConfig),
            Touch::Read(Register::GyroConfig1),
            Touch::Write(Register::GyroConfig1),
            Touch::Write(Register::GyroSmplrtDiv),
        ]);
    }
}

/// The self-test of the accelerometer takes one reading before it is turned on, gives it
/// twenty milliseconds, takes the other reading, turns it off and writes the settings again.
pub proof fn accelerometer_self_test_goes_in_order<E>(run: Run<E>)
    ensures
        ({
            let done = accelerometer::self_test(run).0;
            &&& done.ok() ==> effects::follows(
                run,
                done,
                seq![
                    Touch::Read(Register::AccelConfig),
                    Touch::Write(Register::AccelConfig),
                    Touch::Read(Register::AccelXoutH),
                    Touch::Read(Register::AccelConfig2),
                    Touch::Write(Register::AccelConfig2),
                    Touch::Pause(Pause::Ms(20)),
                    Touch::Read(Register::AccelXoutH),
                    Touch::Read(Register::AccelConfig2),
                    Touch::Write(Register::AccelConfig2),
                    Touch::Read(Register::LpConfig),
                    Touch::Write(Register::LpConfig),
                    Touch::Read(Register::AccelConfig),
                    Touch::Write(Register::AccelConfig),
                    Touch::Write(Register::AccelSmplrtDiv1),
                    Touch::Write(Register::AccelSmplrtDiv2),
                ],
            )
        }),
{
    let done = accelerometer::self_test(run).0;
    if done.ok() {
        assert(effects::touches(done.m.trace) =~= effects::touches(run.m.trace) + seq![
            Touch::Read(Register::AccelConfig),
            Touch::Write(Register::AccelConfig),
            Touch::Read(Register::AccelXoutH),
            Touch::Read(Register::AccelConfig2),
            Touch::Write(Register::AccelConfig2),
            Touch::Pause(Pause::Ms(20)),
            Touch::Read(Register::AccelXoutH),
            Touch::Read(Register::AccelConfig2),
            Touch::Write(Register::AccelConfig2),
            Touch::Read(Register::LpConfig),
            Touch::Write(Register::LpConfig),
            Touch::Read(Register::AccelConfig),
            Touch::Write(Register::AccelConfig),
            Touch::Write(Register::AccelSmplrtDiv1),
            Touch::Write(Register::AccelSmplrtDiv2),
        ]);
    }
}

/// The self-test of the gyroscope goes in the same order.
pub proof fn gyroscope_self_test_goes_in_order<E>(run: Run<E>)
    ensures
        ({
            let done = gyroscope::self_test(run).0;
            &&& done.ok() ==> effects::follows(
                run,
                done,
                seq![
                    Touch::Read(Register::GyroConfig1),
                    Touch::Write(Register::GyroConfig1),
                    Touch::Read(Register::GyroXoutH),
                    Touch::Read(Register::GyroConfig2),
                    Touch::Write(Register::GyroConfig2),
                    Touch::Pause(Pause::Ms(20)),
                    Touch::Read(Register::GyroXoutH),
                    Touch::Read(Register::GyroConfig2),
                    Touch::Write(Register::GyroConfig2),
                    Touch::Read(Register::LpConfig),
                    Touch::Write(Register::LpConfig),
                    Touch::Read(Register::GyroConfig1),
                    Touch::Write(Register::GyroConfig1),
                    Touch::Write(Register::GyroSmplrtDiv),
                ],
            )
        }),
{
    let done = gyroscope::self_test(run).0;
    if done.ok() {
        assert(effects::touches(done.m.trace) =~= effects::touches(run.m.trace) + seq![
            Touch::Read(Register::GyroConfig1),
            Touch::Write(Register::GyroConfig1),
            Touch::Read(Register::GyroXoutH),
            Touch::Read(Register::GyroConfig2),
            Touch::Write(Register::GyroConfig2),
            Touch::Pause(Pause::Ms(20)),
            Touch::Read(Register::GyroXoutH),
            Touch::Read(Register::GyroConfig2),
            Touch::Write(Register::GyroConfig2),
            Touch::Read(Register::LpConfig),
            Touch::Write(Register::LpConfig),
            Touch::Read(Register::GyroConfig1),
            Touch::Write(Register::GyroConfig1),
            Touch::Write(Register::GyroSmplrtDiv),
        ]);
    }
}

/// The chip is given its time between the reset and what wakes it.
pub proof fn reset_comes_before_waking<E>(run: Run<E>)
    ensures
        ({
            let done = device::start(run);
            &&& done.ok() ==> effects::follows(
                run,
                done,
                seq![
                    Touch::Read(Register::PwrMgmt1),
                    Touch::Write(Register::PwrMgmt1),
                    Touch::Pause(Pause::Ms(100)),
                    Touch::Read(Register::PwrMgmt1),
                    Touch::Write(Register::PwrMgmt1),
                ],
            )
        }),
{
    let done = device::start(run);
    if done.ok() {
        assert(effects::touches(done.m.trace) =~= effects::touches(run.m.trace) + seq![
            Touch::Read(Register::PwrMgmt1),
            Touch::Write(Register::PwrMgmt1),
            Touch::Pause(Pause::Ms(100)),
            Touch::Read(Register::PwrMgmt1),
            Touch::Write(Register::PwrMgmt1),
        ]);
    }
}

/// The sources of the FIFO are written before its mode.
pub proof fn fifo_is_set_in_order<E>(run: Run<E>, config: FifoConfigAdvanced)
    ensures
        ({
            let done = fifo::apply(run, config);
            &&& done.ok() ==> effects::follows(
                run,
                done,
                seq![
                    Touch::Write(Register::FifoEn1),
                    Touch::Write(Register::FifoEn2),
                    Touch::Write(Register::FifoMode),
                ],
            )
        }),
{
    let done = fifo::apply(run, config);
    if done.ok() {
        assert(effects::touches(done.m.trace) =~= effects::touches(run.m.trace) + seq![
            Touch::Write(Register::FifoEn1),
            Touch::Write(Register::FifoEn2),
            Touch::Write(Register::FifoMode),
        ]);
    }
}

/// The enable registers of the interrupts are written from the first on.
pub proof fn interrupts_are_set_in_order<E>(run: Run<E>, config: InterruptConfig)
    ensures
        ({
            let done = interrupt::configure(run, config);
            &&& done.ok() ==> effects::follows(
                run,
                done,
                seq![
                    Touch::Write(Register::IntEnable),
                    Touch::Write(Register::IntEnable1),
                    Touch::Write(Register::IntEnable2),
                    Touch::Write(Register::IntEnable3),
                ],
            )
        }),
{
    let done = interrupt::configure(run, config);
    if done.ok() {
        assert(effects::touches(done.m.trace) =~= effects::touches(run.m.trace) + seq![
            Touch::Write(Register::IntEnable),
            Touch::Write(Register::IntEnable1),
            Touch::Write(Register::IntEnable2),
            Touch::Write(Register::IntEnable3),
        ]);
    }
}

/// All four status registers of the interrupts are read, once, from the first on.
pub proof fn interrupts_are_read_in_order<E>(run: Run<E>)
    ensures
        ({
            let done = interrupt::status(run).0;
            &&& done.ok() ==> effects::follows(
                run,
                done,
                seq![
                    Touch::Read(Register::IntStatus),
                    Touch::Read(Register::IntStatus1),
                    Touch::Read(Register::IntStatus2),
                    Touch::Read(Register::IntStatus3),
                ],
            )
        }),
{
    let done = interrupt::status(run).0;
    if done.ok() {
        assert(effects::touches(done.m.trace) =~= effects::touches(run.m.trace) + seq![
            Touch::Read(Register::IntStatus),
            Touch::Read(Register::IntStatus1),
            Touch::Read(Register::IntStatus2),
            Touch::Read(Register::IntStatus3),
        ]);
    }
}

/// The accelerometer is set up before the gyroscope is switched off and low power begins.
/// Where motion is looked for, what it takes is written first, and what is pending is read
/// away before motion may raise an interrupt.
pub proof fn low_power_begins_in_order<E>(run: Run<E>, config: LowPowerConfig)
    ensures
        ({
            let done = power::enter_low_power(run, config);
            &&& done.ok() && !config.enable_wake_on_motion ==> effects::follows(
                run,
                done,
                seq![
                    Touch::Write(Register::AccelSmplrtDiv1),
                    Touch::Write(Register::AccelSmplrtDiv2),
                    Touch::Write(Register::AccelConfig),
                    Touch::Write(Register::AccelConfig2),
                    Touch::Write(Register::PwrMgmt2),
                    Touch::Read(Register::PwrMgmt1),
                    Touch::Write(Register::PwrMgmt1),
                    Touch::Read(Register::LpConfig),
                    Touch::Write(Register::LpConfig),
                    Touch::Pause(Pause::Ms(1)),
                ],
            )
            &&& done.ok() && config.enable_wake_on_motion && run.works() ==> effects::follows(
                run,
                done,
                seq![
                    Touch::Write(Register::AccelWomThr),
                    Touch::Write(Register::AccelIntelCtrl),
                    Touch::Write(Register::AccelSmplrtDiv1),
                    Touch::Write(Register::AccelSmplrtDiv2),
                    Touch::Write(Register::AccelConfig),
                    Touch::Write(Register::AccelConfig2),
                    Touch::Write(Register::PwrMgmt2),
                    Touch::Read(Register::PwrMgmt1),
                    Touch::Write(Register::PwrMgmt1),
                    Touch::Read(Register::LpConfig),
                    Touch::Write(Register::LpConfig),
                    Touch::Pause(Pause::Ms(1)),
                    Touch::Read(Register::IntStatus),
                    Touch::Read(Register::IntStatus1),
                    Touch::Read(Register::IntStatus2),
                    Touch::Read(Register::IntStatus3),
                    Touch::Pause(Pause::Ms(1)),
                    Touch::Read(Register::IntEnable),
                    Touch::Write(Register::IntEnable),
                ],
            )
        }),
{
    let done = power::enter_low_power(run, config);
    if done.ok() && !config.enable_wake_on_motion {
        assert(effects::touches(done.m.trace) =~= effects::touches(run.m.trace) + seq![
            Touch::Write(Register::AccelSmplrtDiv1),
            Touch::Write(Register::AccelSmplrtDiv2),
            Touch::Write(Register::AccelConfig),
            Touch::Write(Register::AccelConfig2),
            Touch::Write(Register::PwrMgmt2),
            Touch::Read(Register::PwrMgmt1),
            Touch::Write(Register::PwrMgmt1),
            Touch::Read(Register::LpConfig),
            Touch::Write(Register::LpConfig),
            Touch::Pause(Pause::Ms(1)),
        ]);
    }
    if done.ok() && config.enable_wake_on_motion && run.works() {
        assert(effects::touches(done.m.trace) =~= effects::touches(run.m.trace) + seq![
            Touch::Write(Register::AccelWomThr),
            Touch::Write(Register::AccelIntelCtrl),
            Touch::Write(Register::AccelSmplrtDiv1),
            Touch::Write(Register::AccelSmplrtDiv2),
            Touch::Write(Register::AccelConfig),
            Touch::Write(Register::AccelConfig2),
            Touch::Write(Register::PwrMgmt2),
            Touch::Read(Register::PwrMgmt1),
            Touch::Write(Register::PwrMgmt1),
            Touch::Read(Register::LpConfig),
            Touch::Write(Register::LpConfig),
            Touch::Pause(Pause::Ms(1)),
            Touch::Read(Register::IntStatus),
            Touch::Read(Register::IntStatus1),
            Touch::Read(Register::IntStatus2),
            Touch::Read(Register::IntStatus3),
            Touch::Pause(Pause::Ms(1)),
            Touch::Read(Register::IntEnable),
            Touch::Write(Register::IntEnable),
        ]);
    }
}

/// The same without blocking.
pub proof fn nonblocking_low_power_begins_in_order<E>(run: Run<E>, config: LowPowerConfig)
    ensures
        ({
            let done = nonblocking::enter_low_power(run, config);
            &&& done.ok() && !config.enable_wake_on_motion ==> effects::follows(
                run,
                done,
                seq![
                    Touch::Write(Register::AccelConfig),
                    Touch::Write(Register::AccelSmplrtDiv1),
                    Touch::Write(Register::AccelSmplrtDiv2),
                    Touch::Write(Register::PwrMgmt2),
                    Touch::Read(Register::PwrMgmt1),
                    Touch::Write(Register::PwrMgmt1),
                    Touch::Write(Register::LpConfig),
                    Touch::Pause(Pause::Ms(1)),
                ],
            )
            &&& done.ok() && config.enable_wake_on_motion && run.works() ==> effects::follows(
                run,
                done,
                seq![
                    Touch::Write(Register::AccelWomThr),
                    Touch::Write(Register::AccelIntelCtrl),
                    Touch::Write(Register::AccelConfig),
                    Touch::Write(Register::AccelSmplrtDiv1),
                    Touch::Write(Register::AccelSmplrtDiv2),
                    Touch::Write(Register::PwrMgmt2),
                    Touch::Read(Register::PwrMgmt1),
                    Touch::Write(Register::PwrMgmt1),
                    Touch::Write(Register::LpConfig),
                    Touch::Pause(Pause::Ms(1)),
                    Touch::Read(Register::IntStatus),
                    Touch::Read(Register::IntStatus1),
                    Touch::Read(Register::IntStatus2),
                    Touch::Read(Register::IntStatus3),
                    Touch::Pause(Pause::Ms(10)),
                    Touch::Read(Register::IntEnable),
                    Touch::Write(Register::IntEnable),
                ],
            )
        }),
{
    let done = nonblocking::enter_low_power(run, config);
    if done.ok() && !config.enable_wake_on_motion {
        assert(effects::touches(done.m.trace) =~= effects::touches(run.m.trace) + seq![
            Touch::Write(Register::AccelConfig),
            Touch::Write(Register::AccelSmplrtDiv1),
            Touch::Write(Register::AccelSmplrtDiv2),
            Touch::Write(Register::PwrMgmt2),
            Touch::Read(Register::PwrMgmt1),
            Touch::Write(Register::PwrMgmt1),
            Touch::Write(Register::LpConfig),
            Touch::Pause(Pause::Ms(1)),
        ]);
    }
    if done.ok() && config.enable_wake_on_motion && run.works() {
        assert(effects::touches(done.m.trace) =~= effects::touches(run.m.trace) + seq![
            Touch::Write(Register::AccelWomThr),
            Touch::Write(Register::AccelIntelCtrl),
            Touch::Write(Register::AccelConfig),
            Touch::Write(Register::AccelSmplrtDiv1),
            Touch::Write(Register::AccelSmplrtDiv2),
            Touch::Write(Register::PwrMgmt2),
            Touch::Read(Register::PwrMgmt1),
            Touch::Write(Register::PwrMgmt1),
            Touch::Write(Register::LpConfig),
            Touch::Pause(Pause::Ms(1)),
            Touch::Read(Register::IntStatus),
            Touch::Read(Register::IntStatus1),
            Touch::Read(Register::IntStatus2),
            Touch::Read(Register::IntStatus3),
            Touch::Pause(Pause::Ms(10)),
            Touch::Read(Register::IntEnable),
            Touch::Write(Register::IntEnable),
        ]);
    }
}

/// Low power ends before the settings of the accelerometer are written again.
pub proof fn low_power_ends_in_order<E>(run: Run<E>)
    ensures
        ({
            let done = power::leave_low_power(run);
            &&& done.ok() ==> effects::follows(
                run,
                done,
                seq![
                    Touch::Read(Register::PwrMgmt1),
                    Touch::Write(Register::PwrMgmt1),
                    Touch::Write(Register::LpConfig),
                    Touch::Write(Register::AccelConfig),
                    Touch::Write(Register::AccelConfig2),
                ],
            )
        }),
{
    let done = power::leave_low_power(run);
    if done.ok() {
        assert(effects::touches(done.m.trace) =~= effects::touches(run.m.trace) + seq![
            Touch::Read(Register::PwrMgmt1),
            Touch::Write(Register::PwrMgmt1),
            Touch::Write(Register::LpConfig),
            Touch::Write(Register::AccelConfig),
            Touch::Write(Register::AccelConfig2),
        ]);
    }
}

/// For the processor, the chip is woken before its sensors are set.
pub proof fn preparing_goes_in_order<E>(run: Run<E>)
    ensures
        ({
            let done = dmp::prepare(run);
            &&& done.ok() ==> effects::follows(
                run,
                done,
                seq![
                    Touch::Read(Register::PwrMgmt1),
                    Touch::Write(Register::PwrMgmt1),
                    Touch::Write(Register::LpConfig),
                    Touch::Write(Register::PwrMgmt2),
                    Touch::Read(Register::GyroConfig1),
                    Touch::Write(Register::GyroConfig1),
                    Touch::Write(Register::GyroSmplrtDiv),
                    Touch::Read(Register::AccelConfig),
                    Touch::Write(Register::AccelConfig),
                    Touch::Write(Register::AccelSmplrtDiv1),
                    Touch::Write(Register::AccelSmplrtDiv2),
                    Touch::Write(Register::OdrAlignEn),
                    Touch::Write(Register::ModCtrlUsr),
                ],
            )
        }),
{
    let done = dmp::prepare(run);
    if done.ok() {
        assert(effects::touches(done.m.trace) =~= effects::touches(run.m.trace) + seq![
            Touch::Read(Register::PwrMgmt1),
            Touch::Write(Register::PwrMgmt1),
            Touch::Write(Register::LpConfig),
            Touch::Write(Register::PwrMgmt2),
            Touch::Read(Register::GyroConfig1),
            Touch::Write(Register::GyroConfig1),
            Touch::Write(Register::GyroSmplrtDiv),
            Touch::Read(Register::AccelConfig),
            Touch::Write(Register::AccelConfig),
            Touch::Write(Register::AccelSmplrtDiv1),
            Touch::Write(Register::AccelSmplrtDiv2),
            Touch::Write(Register::OdrAlignEn),
            Touch::Write(Register::ModCtrlUsr),
        ]);
    }
}

/// The start address of the program is written high byte first.
pub proof fn firmware_is_finished_in_order<E>(run: Run<E>)
    ensures
        ({
            let done = dmp::finish_firmware(run);
            &&& done.ok() ==> effects::follows(
                run,
                done,
                seq![
                    Touch::Write(Register::PrgmStartAddrH),
                    Touch::Write(Register::PrgmStartAddrL),
                    Touch::Write(Register::HwFixDisable),
                    Touch::Write(Register::SingleFifoPrioritySel),
                ],
            )
        }),
{
    let done = dmp::finish_firmware(run);
    if done.ok() {
        assert(effects::touches(done.m.trace) =~= effects::touches(run.m.trace) + seq![
            Touch::Write(Register::PrgmStartAddrH),
            Touch::Write(Register::PrgmStartAddrL),
            Touch::Write(Register::HwFixDisable),
            Touch::Write(Register::SingleFifoPrioritySel),
        ]);
    }
}

/// The processor is turned off before its data is no longer led to the FIFO, and its
/// interrupt comes last.
pub proof fn processor_is_switched_off_in_order<E>(run: Run<E>)
    ensures
        ({
            let done = dmp::switch(run, false);
            &&& done.ok() ==> effects::follows(
                run,
                done,
                seq![
                    Touch::Read(Register::UserCtrl),
                    Touch::Write(Register::UserCtrl),
                    Touch::Write(Register::FifoEn2),
                    Touch::Read(Register::IntEnable),
                    Touch::Write(Register::IntEnable),
                ],
            )
        }),
{
    let done = dmp::switch(run, false);
    if done.ok() {
        assert(effects::touches(done.m.trace) =~= effects::touches(run.m.trace) + seq![
            Touch::Read(Register::UserCtrl),
            Touch::Write(Register::UserCtrl),
            Touch::Write(Register::FifoEn2),
            Touch::Read(Register::IntEnable),
            Touch::Write(Register::IntEnable),
        ]);
    }
}

/// The FIFO is emptied after its sources were set.
pub proof fn routing_goes_in_order<E>(run: Run<E>)
    ensures
        ({
            let done = dmp::route_sensors(run);
            &&& done.ok() ==> effects::follows(
                run,
                done,
                seq![
                    Touch::Read(Register::FifoEn2),
                    Touch::Write(Register::FifoEn2),
                    Touch::Write(Register::FifoRst),
                    Touch::Pause(Pause::Spin(1000)),
                ],
            )
        }),
{
    let done = dmp::route_sensors(run);
    if done.ok() {
        assert(effects::touches(done.m.trace) =~= effects::touches(run.m.trace) + seq![
            Touch::Read(Register::FifoEn2),
            Touch::Write(Register::FifoEn2),
            Touch::Write(Register::FifoRst),
            Touch::Pause(Pause::Spin(1000)),
        ]);
    }
}

/// The I2C master is turned off before its reset, with a millisecond in between; the reset
/// lasts ten milliseconds.
pub proof fn master_is_reset_in_order<E>(run: Run<E>)
    ensures
        ({
            let done = magnetometer::reset_master(run);
            &&& done.ok() ==> effects::follows(
                run,
                done,
                seq![
                    Touch::Read(Register::IntPinCfg),
                    Touch::Write(Register::IntPinCfg),
                    Touch::Read(Register::UserCtrl),
                    Touch::Write(Register::UserCtrl),
                    Touch::Pause(Pause::Ms(1)),
                    Touch::Read(Register::UserCtrl),
                    Touch::Write(Register::UserCtrl),
                    Touch::Pause(Pause::Ms(10)),
                    Touch::Read(Register::UserCtrl),
                    Touch::Write(Register::UserCtrl),
                    Touch::Pause(Pause::Ms(1)),
                ],
            )
        }),
{
    reveal(magnetometer::reset_master);
    let done = magnetometer::reset_master(run);
    if done.ok() {
        assert(effects::touches(done.m.trace) =~= effects::touches(run.m.trace) + seq![
            Touch::Read(Register::IntPinCfg),
            Touch::Write(Register::IntPinCfg),
            Touch::Read(Register::UserCtrl),
            Touch::Write(Register::UserCtrl),
            Touch::Pause(Pause::Ms(1)),
            Touch::Read(Register::UserCtrl),
            Touch::Write(Register::UserCtrl),
            Touch::Pause(Pause::Ms(10)),
            Touch::Read(Register::UserCtrl),
            Touch::Write(Register::UserCtrl),
            Touch::Pause(Pause::Ms(1)),
        ]);
    }
}

/// The I2C master is reset, turned on and given its clock, in this order.
pub proof fn master_restarts_in_order<E>(run: Run<E>)
    ensures
        ({
            let done = magnetometer::restart_master(run);
            &&& done.ok() ==> effects::follows(
                run,
                done,
                seq![
                    Touch::Read(Register::IntPinCfg),
                    Touch::Write(Register::IntPinCfg),
                    Touch::Read(Register::UserCtrl),
                    Touch::Write(Register::UserCtrl),
                    Touch::Pause(Pause::Ms(1)),
                    Touch::Read(Register::UserCtrl),
                    Touch::Write(Register::UserCtrl),
                    Touch::Pause(Pause::Ms(10)),
                    Touch::Read(Register::UserCtrl),
                    Touch::Write(Register::UserCtrl),
                    Touch::Pause(Pause::Ms(1)),
                    Touch::Read(Register::UserCtrl),
                    Touch::Write(Register::UserCtrl),
                    Touch::Pause(Pause::Ms(10)),
                    Touch::Read(Register::I2cMstCtrl),
                    Touch::Write(Register::I2cMstCtrl),
                    Touch::Pause(Pause::Ms(10)),
                ],
            )
        }),
{
    reveal(magnetometer::reset_master);
    reveal(magnetometer::restart_master);
    let done = magnetometer::restart_master(run);
    if done.ok() {
        assert(effects::touches(done.m.trace) =~= effects::touches(run.m.trace) + seq![
            Touch::Read(Register::IntPinCfg),
            Touch::Write(Register::IntPinCfg),
            Touch::Read(Register::UserCtrl),
            Touch::Write(Register::UserCtrl),
            Touch::Pause(Pause::Ms(1)),
            Touch::Read(Register::UserCtrl),
            Touch::Write(Register::UserCtrl),
            Touch::Pause(Pause::Ms(10)),
            Touch::Read(Register::UserCtrl),
            Touch::Write(Register::UserCtrl),
            Touch::Pause(Pause::Ms(1)),
            Touch::Read(Register::UserCtrl),
            Touch::Write(Register::UserCtrl),
            Touch::Pause(Pause::Ms(10)),
            Touch::Read(Register::I2cMstCtrl),
            Touch::Write(Register::I2cMstCtrl),
            Touch::Pause(Pause::Ms(10)),
        ]);
    }
}

/// The timing of the I2C master is written in this order.
pub proof fn master_timing_goes_in_order<E>(run: Run<E>)
    ensures
        ({
            let done = magnetometer::set_master_timing(run);
            &&& done.ok() ==> effects::follows(
                run,
                done,
                seq![
                    Touch::Write(Register::GyroSmplrtDiv),
                    Touch::Write(Register::I2cMstOdrConfig),
                    Touch::Read(Register::I2cMstCtrl),
                    Touch::Write(Register::I2cMstCtrl),
                    Touch::Write(Register::I2cMstDelayCtrl),
                    Touch::Pause(Pause::Ms(10)),
                ],
            )
        }),
{
    reveal(magnetometer::set_master_timing);
    let done = magnetometer::set_master_timing(run);
    if done.ok() {
        assert(effects::touches(done.m.trace) =~= effects::touches(run.m.trace) + seq![
            Touch::Write(Register::GyroSmplrtDiv),
            Touch::Write(Register::I2cMstOdrConfig),
            Touch::Read(Register::I2cMstCtrl),
            Touch::Write(Register::I2cMstCtrl),
            Touch::Write(Register::I2cMstDelayCtrl),
            Touch::Pause(Pause::Ms(10)),
        ]);
    }
}

/// The bit that sets slave 0 going is written last.
pub proof fn slave_is_set_going_last<E>(run: Run<E>)
    ensures
        ({
            let done = magnetometer::point_slave0(run);
            &&& done.ok() ==> effects::follows(
                run,
                done,
                seq![
                    Touch::Write(Register::I2cSlv0Addr),
                    Touch::Write(Register::I2cSlv0Reg),
                    Touch::Write(Register::I2cSlv0Ctrl),
                    Touch::Pause(Pause::Ms(10)),
                ],
            )
        }),
{
    reveal(magnetometer::set_slave0);
    let done = magnetometer::point_slave0(run);
    if done.ok() {
        assert(effects::touches(done.m.trace) =~= effects::touches(run.m.trace) + seq![
            Touch::Write(Register::I2cSlv0Addr),
            Touch::Write(Register::I2cSlv0Reg),
            Touch::Write(Register::I2cSlv0Ctrl),
            Touch::Pause(Pause::Ms(10)),
        ]);
    }
}

/// For the processor, each slave is set going after it was told what to do.
pub proof fn slaves_are_set_going_last<E>(run: Run<E>)
    ensures
        ({
            let done = magnetometer::set_slaves_for_dmp(run);
            &&& done.ok() ==> effects::follows(
                run,
                done,
                seq![
                    Touch::Write(Register::I2cSlv0Addr),
                    Touch::Write(Register::I2cSlv0Reg),
                    Touch::Write(Register::I2cSlv0Ctrl),
                    Touch::Write(Register::I2cSlv1Addr),
                    Touch::Write(Register::I2cSlv1Reg),
                    Touch::Write(Register::I2cSlv1Do),
                    Touch::Write(Register::I2cSlv1Ctrl),
                    Touch::Write(Register::I2cMstOdrConfig),
                ],
            )
        }),
{
    reveal(magnetometer::set_slaves_for_dmp);
    let done = magnetometer::set_slaves_for_dmp(run);
    if done.ok() {
        assert(effects::touches(done.m.trace) =~= effects::touches(run.m.trace) + seq![
            Touch::Write(Register::I2cSlv0Addr),
            Touch::Write(Register::I2cSlv0Reg),
            Touch::Write(Register::I2cSlv0Ctrl),
            Touch::Write(Register::I2cSlv1Addr),
            Touch::Write(Register::I2cSlv1Reg),
            Touch::Write(Register::I2cSlv1Do),
            Touch::Write(Register::I2cSlv1Ctrl),
            Touch::Write(Register::I2cMstOdrConfig),
        ]);
    }
}

/// Without blocking, a value is there before the transfer that carries it begins.
pub proof fn nonblocking_write_begins_last<E>(run: Run<E>, reg: u8, value: u8)
    ensures
        ({
            let done = nonblocking::write_mag(run, reg, value);
            &&& done.ok() ==> effects::follows(
                run,
                done,
                seq![
                    Touch::Write(Register::I2cSlv4Addr),
                    Touch::Write(Register::I2cSlv4Reg),
                    Touch::Write(Register::I2cSlv4Do),
                    Touch::Write(Register::I2cSlv4Ctrl),
                    Touch::Pause(Pause::Ms(10)),
                ],
            )
        }),
{
    let done = nonblocking::write_mag(run, reg, value);
    if done.ok() {
        assert(effects::touches(done.m.trace) =~= effects::touches(run.m.trace) + seq![
            Touch::Write(Register::I2cSlv4Addr),
            Touch::Write(Register::I2cSlv4Reg),
            Touch::Write(Register::I2cSlv4Do),
            Touch::Write(Register::I2cSlv4Ctrl),
            Touch::Pause(Pause::Ms(10)),
        ]);
    }
}

/// Without blocking, the answer is read ten milliseconds after the transfer began.
pub proof fn nonblocking_answer_comes_last<E>(run: Run<E>, reg: u8)
    ensures
        ({
            let done = nonblocking::read_mag(run, reg).0;
            &&& done.ok() ==> effects::follows(
                run,
                done,
                seq![
                    Touch::Write(Register::I2cSlv4Addr),
                    Touch::Write(Register::I2cSlv4Reg),
                    Touch::Write(Register::I2cSlv4Ctrl),
                    Touch::Pause(Pause::Ms(10)),
                    Touch::Read(Register::I2cSlv4Di),
                ],
            )
        }),
{
    let done = nonblocking::read_mag(run, reg).0;
    if done.ok() {
        assert(effects::touches(done.m.trace) =~= effects::touches(run.m.trace) + seq![
            Touch::Write(Register::I2cSlv4Addr),
            Touch::Write(Register::I2cSlv4Reg),
            Touch::Write(Register::I2cSlv4Ctrl),
            Touch::Pause(Pause::Ms(10)),
            Touch::Read(Register::I2cSlv4Di),
        ]);
    }
}

/// Without blocking, the magnetometer is reset, then asked who it is, then read by slave 0,
/// and then told its mode.
#[verifier::spinoff_prover]
#[verifier::rlimit(60)]
pub proof fn nonblocking_set_up_goes_in_order<E>(run: Run<E>, mode: MagMode)
    ensures
        ({
            let done = nonblocking::set_up(run, mode);
            &&& done.ok() ==> effects::follows(
                run,
                done,
                seq![
                    Touch::Read(Register::UserCtrl),
                    Touch::Write(Register::UserCtrl),
                    Touch::Pause(Pause::Ms(10)),
                    Touch::Read(Register::I2cMstCtrl),
                    Touch::Write(Register::I2cMstCtrl),
                    Touch::Pause(Pause::Ms(10)),
                    Touch::Write(Register::I2cSlv4Addr),
                    Touch::Write(Register::I2cSlv4Reg),
                    Touch::Write(Register::I2cSlv4Do),
                    Touch::Write(Register::I2cSlv4Ctrl),
                    Touch::Pause(Pause::Ms(10)),
                    Touch::Pause(Pause::Ms(10)),
                    Touch::Write(Register::I2cSlv4Addr),
                    Touch::Write(Register::I2cSlv4Reg),
                    Touch::Write(Register::I2cSlv4Ctrl),
                    Touch::Pause(Pause::Ms(10)),
                    Touch::Read(Register::I2cSlv4Di),
                    Touch::Write(Register::I2cSlv0Addr),
                    Touch::Write(Register::I2cSlv0Reg),
                    Touch::Write(Register::I2cSlv0Ctrl),
                    Touch::Pause(Pause::Ms(10)),
                    Touch::Write(Register::I2cSlv4Addr),
                    Touch::Write(Register::I2cSlv4Reg),
                    Touch::Write(Register::I2cSlv4Do),
                    Touch::Write(Register::I2cSlv4Ctrl),
                    Touch::Pause(Pause::Ms(10)),
                    Touch::Pause(Pause::Ms(10)),
                ],
            )
        }),
{
    let done = nonblocking::set_up(run, mode);
    if done.ok() {
        assert(effects::touches(done.m.trace) =~= effects::touches(run.m.trace) + seq![
            Touch::Read(Register::UserCtrl),
            Touch::Write(Register::UserCtrl),
            Touch::Pause(Pause::Ms(10)),
            Touch::Read(Register::I2cMstCtrl),
            Touch::Write(Register::I2cMstCtrl),
            Touch::Pause(Pause::Ms(10)),
            Touch::Write(Register::I2cSlv4Addr),
            Touch::Write(Register::I2cSlv4Reg),
            Touch::Write(Register::I2cSlv4Do),
            Touch::Write(Register::I2cSlv4Ctrl),
            Touch::Pause(Pause::Ms(10)),
            Touch::Pause(Pause::Ms(10)),
            Touch::Write(Register::I2cSlv4Addr),
            Touch::Write(Register::I2cSlv4Reg),
            Touch::Write(Register::I2cSlv4Ctrl),
            Touch::Pause(Pause::Ms(10)),
            Touch::Read(Register::I2cSlv4Di),
            Touch::Write(Register::I2cSlv0Addr),
            Touch::Write(Register::I2cSlv0Reg),
            Touch::Write(Register::I2cSlv0Ctrl),
            Touch::Pause(Pause::Ms(10)),
            Touch::Write(Register::I2cSlv4Addr),
            Touch::Write(Register::I2cSlv4Reg),
            Touch::Write(Register::I2cSlv4Do),
            Touch::Write(Register::I2cSlv4Ctrl),
            Touch::Pause(Pause::Ms(10)),
            Touch::Pause(Pause::Ms(10)),
        ]);
    }
}

/// Without blocking and for the processor, the magnetometer is asked who it is, then reset,
/// and then the slaves are set.
#[verifier::spinoff_prover]
#[verifier::rlimit(60)]
pub proof fn nonblocking_processor_set_up_goes_in_order<E>(run: Run<E>)
    ensures
        ({
            let done = nonblocking::set_up_for_dmp(run);
            &&& done.ok() ==> effects::follows(
                run,
                done,
                seq![
                    Touch::Read(Register::UserCtrl),
                    Touch::Write(Register::UserCtrl),
                    Touch::Pause(Pause::Ms(10)),
                    Touch::Write(Register::I2cMstCtrl),
                    Touch::Write(Register::I2cSlv4Addr),
                    Touch::Write(Register::I2cSlv4Reg),
                    Touch::Write(Register::I2cSlv4Ctrl),
                    Touch::Pause(Pause::Ms(10)),
                    Touch::Read(Register::I2cSlv4Di),
                    Touch::Write(Register::I2cSlv4Addr),
                    Touch::Write(Register::I2cSlv4Reg),
                    Touch::Write(Register::I2cSlv4Do),
                    Touch::Write(Register::I2cSlv4Ctrl),
                    Touch::Pause(Pause::Ms(10)),
                    Touch::Pause(Pause::Ms(100)),
                    Touch::Write(Register::I2cSlv0Addr),
                    Touch::Write(Register::I2cSlv0Reg),
                    Touch::Write(Register::I2cSlv0Ctrl),
                    Touch::Write(Register::I2cSlv1Addr),
                    Touch::Write(Register::I2cSlv1Reg),
                    Touch::Write(Register::I2cSlv1Do),
                    Touch::Write(Register::I2cSlv1Ctrl),
                    Touch::Write(Register::I2cMstOdrConfig),
                    Touch::Read(Register::LpConfig),
                    Touch::Write(Register::LpConfig),
                    Touch::Pause(Pause::Ms(50)),
                ],
            )
        }),
{
    reveal(magnetometer::set_slaves_for_dmp);
    let done = nonblocking::set_up_for_dmp(run);
    if done.ok() {
        assert(effects::touches(done.m.trace) =~= effects::touches(run.m.trace) + seq![
            Touch::Read(Register::UserCtrl),
            Touch::Write(Register::UserCtrl),
            Touch::Pause(Pause::Ms(10)),
            Touch::Write(Register::I2cMstCtrl),
            Touch::Write(Register::I2cSlv4Addr),
            Touch::Write(Register::I2cSlv4Reg),
            Touch::Write(Register::I2cSlv4Ctrl),
            Touch::Pause(Pause::Ms(10)),
            Touch::Read(Register::I2cSlv4Di),
            Touch::Write(Register::I2cSlv4Addr),
            Touch::Write(Register::I2cSlv4Reg),
            Touch::Write(Register::I2cSlv4Do),
            Touch::Write(Register::I2cSlv4Ctrl),
            Touch::Pause(Pause::Ms(10)),
            Touch::Pause(Pause::Ms(100)),
            Touch::Write(Register::I2cSlv0Addr),
            Touch::Write(Register::I2cSlv0Reg),
            Touch::Write(Register::I2cSlv0Ctrl),
            Touch::Write(Register::I2cSlv1Addr),
            Touch::Write(Register::I2cSlv1Reg),
            Touch::Write(Register::I2cSlv1Do),
            Touch::Write(Register::I2cSlv1Ctrl),
            Touch::Write(Register::I2cMstOdrConfig),
            Touch::Read(Register::LpConfig),
            Touch::Write(Register::LpConfig),
            Touch::Pause(Pause::Ms(50)),
        ]);
    }
}

/// The rates of the gyroscope are read after its settings.
pub proof fn gyroscope_registers_are_read_in_order<E>(run: Run<E>)
    ensures
        ({
            let done = power::gyro_registers(run).0;
            &&& done.ok() ==> effects::follows(
                run,
                done,
                seq![
                    Touch::Read(Register::GyroConfig1),
                    Touch::Read(Register::GyroSmplrtDiv),
                ],
            )
        }),
{
    let done = power::gyro_registers(run).0;
    if done.ok() {
        assert(effects::touches(done.m.trace) =~= effects::touches(run.m.trace) + seq![
            Touch::Read(Register::GyroConfig1),
            Touch::Read(Register::GyroSmplrtDiv),
        ]);
    }
}

/// The rates of the accelerometer are read after its settings.
pub proof fn accelerometer_registers_are_read_in_order<E>(run: Run<E>)
    ensures
        ({
            let done = power::accel_registers(run).0;
            &&& done.ok() ==> effects::follows(
                run,
                done,
                seq![
                    Touch::Read(Register::AccelConfig),
                    Touch::Read(Register::AccelSmplrtDiv1),
                    Touch::Read(Register::AccelSmplrtDiv2),
                ],
            )
        }),
{
    let done = power::accel_registers(run).0;
    if done.ok() {
        assert(effects::touches(done.m.trace) =~= effects::touches(run.m.trace) + seq![
            Touch::Read(Register::AccelConfig),
            Touch::Read(Register::AccelSmplrtDiv1),
            Touch::Read(Register::AccelSmplrtDiv2),
        ]);
    }
}

/// What the processor needs of power is looked at first. Then it is turned on, its data is
/// led to the FIFO, the duty cycle of the I2C master begins, and its interrupt comes last.
pub proof fn processor_is_switched_on_in_order<E>(run: Run<E>)
    ensures
        ({
            let done = dmp::switch(run, true);
            let was = effects::touches(run.m.trace);
            let is = effects::touches(done.m.trace);
            &&& done.ok() ==> {
                &&& is.len() >= was.len() + 10
                &&& is.take(was.len() as int) == was
                &&& is[was.len() as int] == Touch::Read(Register::PwrMgmt1)
                &&& is.skip(is.len() - 7) == seq![
                    Touch::Read(Register::UserCtrl),
                    Touch::Write(Register::UserCtrl),
                    Touch::Write(Register::FifoEn2),
                    Touch::Read(Register::LpConfig),
                    Touch::Write(Register::LpConfig),
                    Touch::Read(Register::IntEnable),
                    Touch::Write(Register::IntEnable),
                ]
            }
        }),
{
    let done = dmp::switch(run, true);
    let was = effects::touches(run.m.trace);
    let is = effects::touches(done.m.trace);
    if done.ok() {
        assert(is.take(was.len() as int) =~= was);
        assert(is.skip(is.len() - 7) =~= seq![
            Touch::Read(Register::UserCtrl),
            Touch::Write(Register::UserCtrl),
            Touch::Write(Register::FifoEn2),
            Touch::Read(Register::LpConfig),
            Touch::Write(Register::LpConfig),
            Touch::Read(Register::IntEnable),
            Touch::Write(Register::IntEnable),
        ]);
    }
}

/// Operations that work in another bank leave bank 0 selected.
pub proof fn bank_zero_is_selected_again<E>(
    run: Run<E>,
    accel: AccelConfig,
    gyro: GyroConfig,
    mode: MagMode,
    register: Register,
)
    ensures
        accelerometer::configure(run, accel).ok() ==> accelerometer::configure(
            run,
            accel,
        ).state().bank == Some(Bank::Bank0),
        gyroscope::configure(run, gyro).ok() ==> gyroscope::configure(run, gyro).state().bank
            == Some(Bank::Bank0),
        power::leave_low_power(run).ok() ==> power::leave_low_power(run).state().bank == Some(
            Bank::Bank0,
        ),
        power::gyro_registers(run).0.ok() ==> power::gyro_registers(run).0.state().bank == Some(
            Bank::Bank0,
        ),
        power::accel_registers(run).0.ok() ==> power::accel_registers(run).0.state().bank == Some(
            Bank::Bank0,
        ),
        power::look_at_switch(run, register).0.ok() ==> power::look_at_switch(
            run,
            register,
        ).0.state().bank == Some(Bank::Bank0),
        dmp::prepare(run).ok() ==> dmp::prepare(run).state().bank == Some(Bank::Bank0),
        nonblocking::set_up(run, mode).ok() ==> nonblocking::set_up(run, mode).state().bank
            == Some(Bank::Bank0),
{
}

} // verus!
