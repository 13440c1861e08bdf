//! Laws on how the magnetometer is set up.

use vstd::prelude::*;

use crate::chip;
use crate::interface::{Pause, World};
use crate::magnetometer;
use crate::magnetometer::{
    MagMode, AK09916_I2C_ADDRESS, AK09916_REG_CNTL2, AK09916_REG_CNTL3, AK09916_REG_ST1,
    AK09916_REG_WIA2, AK09916_WIA2_VALUE, MAX_RETRIES, MAX_STARTS,
};
use crate::registers::{
    Register, I2C_LOST_ARB, I2C_MST_CYCLE, I2C_MST_EN, I2C_SLV4_DONE, I2C_SLV4_NACK, I2C_SLV_EN,
    I2C_SLV_RNW,
};
use crate::script::Run;
use crate::{Bank, Error};

verus! {

/// The bus works: every access goes through.
#[verifier::opaque]
pub open spec fn works<E>(world: World<E>) -> bool {
    forall|n: nat| (#[trigger] world.at(n)).result is Ok
}

/// The run in which question number `k` is asked, counted from 0. Before each question
/// but the first the I2C master is restarted, whatever became of the question before.
pub open spec fn before_question<E>(run: Run<E>, reg: u8, k: nat) -> Run<E>
    decreases k,
{
    if k == 0 {
        run
    } else {
        magnetometer::restart_master(
            magnetometer::read_mag(before_question(run, reg, (k - 1) as nat), reg).0.forgive(),
        )
    }
}

/// Whether question number `k` gets the expected answer.
pub open spec fn answered<E>(run: Run<E>, reg: u8, expected: u8, k: nat) -> bool {
    let (asked, answer) = magnetometer::read_mag(before_question(run, reg, k), reg);
    asked.ok() && answer == expected
}

/// Whether question number `k` is the first to get the expected answer.
pub open spec fn first_answered<E>(run: Run<E>, reg: u8, expected: u8, k: nat) -> bool {
    &&& answered(run, reg, expected, k)
    &&& forall|j: nat| j < k ==> !#[trigger] answered(run, reg, expected, j)
}

pub(crate) broadcast proof fn lemma_read<E>(run: Run<E>, register: Register, size_bits: u32, len: nat)
    ensures
        ({
            let then = #[trigger] run.read(register, size_bits, len);
            &&& then.m.world == run.m.world
            &&& then.m.state == run.m.state
            &&& works(run.m.world) && run.ok() ==> then.ok()
        }),
{
    reveal(Run::read);
    reveal(works);
}

pub(crate) broadcast proof fn lemma_put<E>(run: Run<E>, register: Register, value: u8)
    ensures
        ({
            let then = #[trigger] run.put(register, value);
            &&& then.m.world == run.m.world
            &&& then.m.state == run.m.state
            &&& works(run.m.world) && run.ok() ==> then.ok()
        }),
{
    reveal(Run::put);
    reveal(works);
}

pub(crate) broadcast proof fn lemma_pause<E>(run: Run<E>, pause: Pause)
    ensures
        ({
            let then = #[trigger] run.pause(pause);
            &&& then.m.world == run.m.world
            &&& then.m.state == run.m.state
            &&& run.ok() ==> then.ok()
        }),
{
    reveal(Run::pause);
}

pub(crate) broadcast proof fn lemma_select<E>(run: Run<E>, bank: Bank)
    ensures
        ({
            let then = #[trigger] run.select(bank);
            &&& then.m.world == run.m.world
            &&& run.m.kept(then.m)
            &&& works(run.m.world) && run.ok() ==> then.ok()
        }),
{
    reveal(Run::select);
    reveal(Run::put);
    reveal(Run::remember);
    reveal(works);
}

pub(crate) broadcast group group_goes_on {
    lemma_read,
    lemma_put,
    lemma_pause,
    lemma_select,
}

proof fn lemma_poll<E>(run: Run<E>, retries: int)
    ensures
        magnetometer::poll_done(run, retries).m.world == run.m.world,
        magnetometer::poll_done(run, retries).m.state == run.m.state,
    decreases MAX_RETRIES + 1 - retries,
{
    broadcast use group_goes_on;

    reveal(Run::fail);
    if run.ok() && retries <= MAX_RETRIES {
        lemma_poll(run.get(Register::I2cMstStatus).ms(1), retries + 1);
    }
}

proof fn lemma_end_transfer<E>(run: Run<E>)
    ensures
        magnetometer::end_transfer(run).m.world == run.m.world,
        run.m.kept(magnetometer::end_transfer(run).m),
        works(run.m.world) ==> (magnetometer::end_transfer(run).ok() <==> magnetometer::wait_done(
            run,
        ).ok()),
{
    broadcast use group_goes_on;
    broadcast use crate::script::group_steps;

    lemma_poll(run.select(Bank::Bank0), 0);
}

/// A write to the magnetometer goes through if its transfer does.
proof fn lemma_write_mag<E>(run: Run<E>, reg: u8, value: u8)
    ensures
        magnetometer::write_mag(run, reg, value).m.world == run.m.world,
        run.m.kept(magnetometer::write_mag(run, reg, value).m),
        works(run.m.world) ==> (magnetometer::write_mag(run, reg, value).ok()
            <==> magnetometer::wait_done(magnetometer::send_write(run, reg, value)).ok()),
{
    broadcast use group_goes_on;

    reveal(magnetometer::write_mag);
    lemma_end_transfer(magnetometer::send_write(run, reg, value));
}

proof fn lemma_read_mag<E>(run: Run<E>, reg: u8)
    ensures
        magnetometer::read_mag(run, reg).0.m.world == run.m.world,
        run.m.kept(magnetometer::read_mag(run, reg).0.m),
{
    broadcast use group_goes_on;

    reveal(magnetometer::read_mag);
    lemma_end_transfer(
        magnetometer::begin_transfer(run).put(
            Register::I2cSlv4Addr,
            AK09916_I2C_ADDRESS | I2C_SLV_RNW,
        ).put(Register::I2cSlv4Reg, reg).put(Register::I2cSlv4Ctrl, I2C_SLV_EN),
    );
}

proof fn lemma_reset_master<E>(run: Run<E>)
    ensures
        magnetometer::reset_master(run).m.world == run.m.world,
        run.m.kept(magnetometer::reset_master(run).m),
        works(run.m.world) && run.ok() ==> magnetometer::reset_master(run).ok(),
{
    broadcast use group_goes_on;

    reveal(magnetometer::reset_master);
}

proof fn lemma_restart_master<E>(run: Run<E>)
    ensures
        magnetometer::restart_master(run).m.world == run.m.world,
        run.m.kept(magnetometer::restart_master(run).m),
        works(run.m.world) && run.ok() ==> magnetometer::restart_master(run).ok(),
{
    broadcast use group_goes_on;

    reveal(magnetometer::restart_master);
    lemma_reset_master(run);
}

/// On a bus that works, each question is asked.
proof fn lemma_before_question<E>(run: Run<E>, reg: u8, k: nat)
    ensures
        before_question(run, reg, k).m.world == run.m.world,
        run.m.kept(before_question(run, reg, k).m),
        works(run.m.world) && run.ok() ==> before_question(run, reg, k).ok(),
    decreases k,
{
    if k > 0 {
        let before = before_question(run, reg, (k - 1) as nat);
        lemma_before_question(run, reg, (k - 1) as nat);
        lemma_read_mag(before, reg);
        lemma_restart_master(magnetometer::read_mag(before, reg).0.forgive());
    }
}

/// Questions that do not get the expected answer are passed over.
proof fn lemma_passed_over<E>(run: Run<E>, reg: u8, expected: u8, attempts: nat, k: nat)
    requires
        run.ok(),
        works(run.m.world),
        k < attempts,
        forall|j: nat| j < k ==> !#[trigger] answered(run, reg, expected, j),
    ensures
        magnetometer::identify(run, reg, expected, attempts) == magnetometer::identify(
            before_question(run, reg, k),
            reg,
            expected,
            (attempts - k) as nat,
        ),
    decreases k,
{
    if k > 0 {
        let i = (k - 1) as nat;
        lemma_passed_over(run, reg, expected, attempts, i);
        lemma_before_question(run, reg, i);
        assert(!answered(run, reg, expected, i));
        reveal_with_fuel(magnetometer::identify, 2);
    }
}

/// If some question gets the expected answer, one is the first to get it.
proof fn lemma_first<E>(run: Run<E>, reg: u8, expected: u8, k: nat) -> (first: nat)
    requires
        answered(run, reg, expected, k),
    ensures
        first <= k,
        first_answered(run, reg, expected, first),
    decreases k,
{
    if first_answered(run, reg, expected, k) {
        k
    } else {
        let j = choose|j: nat| j < k && #[trigger] answered(run, reg, expected, j);
        lemma_first(run, reg, expected, j)
    }
}

/// The magnetometer is identified if and only if one of the first `attempts` questions
/// gets the expected answer. The first such question is the last that is asked. If there
/// is none, exactly `attempts` questions are asked.
pub proof fn identification<E>(run: Run<E>, reg: u8, expected: u8, attempts: nat)
    requires
        run.ok(),
        works(run.m.world),
        attempts > 0,
    ensures
        ({
            let identified = magnetometer::identify(run, reg, expected, attempts);
            &&& identified.ok() <==> exists|k: nat|
                k < attempts && #[trigger] answered(run, reg, expected, k)
            &&& forall|k: nat|
                k < attempts && #[trigger] first_answered(run, reg, expected, k) ==> identified
                    == magnetometer::read_mag(before_question(run, reg, k), reg).0
            &&& !identified.ok() ==> identified == (Run {
                failed: Some(Error::Magnetometer),
                ..magnetometer::read_mag(before_question(run, reg, (attempts - 1) as nat), reg).0
            })
        }),
{
    let identified = magnetometer::identify(run, reg, expected, attempts);
    assert forall|k: nat|
        k < attempts && #[trigger] first_answered(run, reg, expected, k) implies identified
        == magnetometer::read_mag(before_question(run, reg, k), reg).0 && identified.ok() by {
        lemma_passed_over(run, reg, expected, attempts, k);
        lemma_before_question(run, reg, k);
        reveal(magnetometer::identify);
    }
    if exists|k: nat| k < attempts && #[trigger] answered(run, reg, expected, k) {
        let k = choose|k: nat| k < attempts && #[trigger] answered(run, reg, expected, k);
        let first = lemma_first(run, reg, expected, k);
        assert(first_answered(run, reg, expected, first));
    } else {
        let last = (attempts - 1) as nat;
        lemma_passed_over(run, reg, expected, attempts, last);
        lemma_before_question(run, reg, last);
        assert(!answered(run, reg, expected, last));
        reveal(magnetometer::identify);
        reveal(Run::fail);
    }
}

/// Whether question number `k` after a reset is answered by a magnetometer.
pub open spec fn found_by<E>(run: Run<E>, k: nat) -> bool {
    answered(magnetometer::wake(run), AK09916_REG_WIA2, AK09916_WIA2_VALUE, k)
}

/// Whether question number `k` after a reset is the first that a magnetometer answers.
pub open spec fn first_found_by<E>(run: Run<E>, k: nat) -> bool {
    first_answered(magnetometer::wake(run), AK09916_REG_WIA2, AK09916_WIA2_VALUE, k)
}

/// The run after question number `k`.
pub open spec fn after_question<E>(run: Run<E>, k: nat) -> Run<E> {
    magnetometer::read_mag(
        before_question(magnetometer::wake(run), AK09916_REG_WIA2, k),
        AK09916_REG_WIA2,
    ).0
}

/// After question number `k`, the I2C master says that the mode was transferred.
pub open spec fn mode_arrives<E>(run: Run<E>, mode: MagMode, k: nat) -> bool {
    magnetometer::wait_done(
        magnetometer::send_write(
            magnetometer::point_slave0(after_question(run, k)),
            AK09916_REG_CNTL2,
            mode.code(),
        ),
    ).ok()
}

/// The magnetometer can be read: the driver knows that it is set up, slave 0 reads nine
/// bytes from its first status register on, and the I2C master runs.
pub open spec fn readable<E>(run: Run<E>) -> bool {
    let trace = run.m.trace;
    &&& run.state().mag_initialized
    &&& chip::written(trace, Register::I2cSlv0Addr) == Some(AK09916_I2C_ADDRESS | I2C_SLV_RNW)
    &&& chip::written(trace, Register::I2cSlv0Reg) == Some(AK09916_REG_ST1)
    &&& chip::written(trace, Register::I2cSlv0Ctrl) == Some(I2C_SLV_EN | 9)
    &&& chip::written(trace, Register::LpConfig) matches Some(value) && value & I2C_MST_CYCLE != 0
}

proof fn lemma_written_poll<E>(run: Run<E>, retries: int, other: Register)
    ensures
        chip::written(magnetometer::poll_done(run, retries).m.trace, other) == chip::written(
            run.m.trace,
            other,
        ),
    decreases MAX_RETRIES + 1 - retries,
{
    broadcast use crate::chip::group_written;

    reveal(Run::fail);
    if run.ok() && retries <= MAX_RETRIES {
        lemma_written_poll(run.get(Register::I2cMstStatus).ms(1), retries + 1, other);
    }
}

/// A write to the magnetometer leaves slave 0 as it is.
proof fn lemma_written_write_mag<E>(run: Run<E>, reg: u8, value: u8, other: Register)
    requires
        other == Register::I2cSlv0Addr || other == Register::I2cSlv0Reg || other
            == Register::I2cSlv0Ctrl,
    ensures
        chip::written(magnetometer::write_mag(run, reg, value).m.trace, other) == chip::written(
            run.m.trace,
            other,
        ),
{
    broadcast use crate::chip::group_written;

    reveal(magnetometer::write_mag);
    lemma_written_poll(
        magnetometer::send_write(run, reg, value).select(Bank::Bank0),
        0,
        other,
    );
}

/// A magnetometer that was found, and whose mode was transferred, can be read.
proof fn lemma_start_reading<E>(run: Run<E>, mode: MagMode)
    requires
        run.ok(),
        works(run.m.world),
        magnetometer::wait_done(
            magnetometer::send_write(
                magnetometer::point_slave0(run),
                AK09916_REG_CNTL2,
                mode.code(),
            ),
        ).ok(),
    ensures
        magnetometer::start_reading(run, mode).ok(),
        readable(magnetometer::start_reading(run, mode)),
{
    broadcast use group_goes_on;
    broadcast use crate::chip::group_written;

    reveal(magnetometer::set_slave0);
    reveal(Run::remember);
    let pointed = magnetometer::point_slave0(run);
    let sent = magnetometer::write_mag(pointed, AK09916_REG_CNTL2, mode.code());
    lemma_write_mag(pointed, AK09916_REG_CNTL2, mode.code());
    lemma_written_write_mag(pointed, AK09916_REG_CNTL2, mode.code(), Register::I2cSlv0Addr);
    lemma_written_write_mag(pointed, AK09916_REG_CNTL2, mode.code(), Register::I2cSlv0Reg);
    lemma_written_write_mag(pointed, AK09916_REG_CNTL2, mode.code(), Register::I2cSlv0Ctrl);
    let was = sent.ms(10).select(Bank::Bank0).next_byte();
    assert(((was & !I2C_MST_CYCLE) | I2C_MST_CYCLE) & I2C_MST_CYCLE != 0) by (bit_vector);
}

/// The magnetometer is asked up to five times who it is. It is set up, and can then be
/// read, if and only if one of these questions gets the right answer. If none does, the
/// call fails after the fifth, with the error for the magnetometer, and a magnetometer
/// that was not set up before still cannot be read.
///
/// This holds on a bus that works, once the magnetometer was reset, and if the transfer
/// of its mode is done.
pub proof fn set_up_asks_five_times<E>(run: Run<E>, mode: MagMode)
    requires
        works(run.m.world),
        magnetometer::wake(run).ok(),
        forall|k: nat|
            k < MAX_STARTS && #[trigger] first_found_by(run, k) ==> mode_arrives(run, mode, k),
    ensures
        MAX_STARTS == 5,
        ({
            let done = magnetometer::set_up(run, mode);
            &&& done.ok() <==> exists|k: nat| k < MAX_STARTS && #[trigger] found_by(run, k)
            &&& done.ok() ==> readable(done)
            &&& !done.ok() ==> {
                &&& done.failed == Some(Error::<E>::Magnetometer)
                &&& done.m == after_question(run, 4).m
                &&& run.m.kept(done.m)
            }
            &&& !done.ok() && !run.state().mag_initialized ==> forall|len: nat, first: int|
                (#[trigger] magnetometer::measure(done.m.run(), len, first)).0 == done
        }),
{
    broadcast use crate::script::group_steps;

    let woken = magnetometer::wake(run);
    let done = magnetometer::set_up(run, mode);
    lemma_wake(run);
    identification(woken, AK09916_REG_WIA2, AK09916_WIA2_VALUE, MAX_STARTS as nat);
    if exists|k: nat| k < MAX_STARTS && #[trigger] found_by(run, k) {
        let k = choose|k: nat| k < MAX_STARTS && #[trigger] found_by(run, k);
        let first = lemma_first(woken, AK09916_REG_WIA2, AK09916_WIA2_VALUE, k);
        assert(found_by(run, first));
        assert(first_found_by(run, first));
        lemma_before_question(woken, AK09916_REG_WIA2, first);
        lemma_read_mag(before_question(woken, AK09916_REG_WIA2, first), AK09916_REG_WIA2);
        lemma_start_reading(after_question(run, first), mode);
    } else {
        assert forall|k: nat| k < MAX_STARTS implies !#[trigger] answered(
            woken,
            AK09916_REG_WIA2,
            AK09916_WIA2_VALUE,
            k,
        ) by {
            assert(!found_by(run, k));
        }
        lemma_before_question(woken, AK09916_REG_WIA2, 4);
        lemma_read_mag(before_question(woken, AK09916_REG_WIA2, 4), AK09916_REG_WIA2);
        lemma_stays(
            magnetometer::identify(
                woken,
                AK09916_REG_WIA2,
                AK09916_WIA2_VALUE,
                MAX_STARTS as nat,
            ),
            mode,
        );
        reveal(Run::fail);
    }
}

/// What failed is not made readable.
proof fn lemma_stays<E>(run: Run<E>, mode: MagMode)
    requires
        !run.ok(),
    ensures
        magnetometer::start_reading(run, mode) == run,
{
    broadcast use crate::script::group_steps;

    reveal(magnetometer::set_slave0);
    reveal(magnetometer::write_mag);
}

proof fn lemma_try_master<E>(run: Run<E>, attempts: nat)
    ensures
        magnetometer::try_master(run, attempts).m.world == run.m.world,
        run.m.kept(magnetometer::try_master(run, attempts).m),
        run.m.trace.is_prefix_of(magnetometer::try_master(run, attempts).m.trace),
    decreases attempts,
{
    broadcast use group_goes_on;

    reveal(magnetometer::try_master);
    reveal(Run::fail);
    let tried = run.modify(Register::UserCtrl, I2C_MST_EN, I2C_MST_EN).ms(10);
    let read = tried.get(Register::UserCtrl);
    assert(run.m.trace.is_prefix_of(read.m.trace)
        && run.m.trace.is_prefix_of(
            read.modify(Register::LpConfig, I2C_MST_CYCLE, 0).ms(10).m.trace,
        )) by {
        reveal(Run::read);
        reveal(Run::put);
        reveal(Run::pause);
    }
    if run.ok() && attempts > 0 {
        let rest = magnetometer::try_master(read, (attempts - 1) as nat);
        lemma_try_master(read, (attempts - 1) as nat);
        assert(run.m.trace =~= rest.m.trace.subrange(0, run.m.trace.len() as int)) by {
            assert(forall|i: int|
                0 <= i < run.m.trace.len() ==> run.m.trace[i] == read.m.trace.subrange(
                    0,
                    run.m.trace.len() as int,
                )[i]);
            assert(forall|i: int|
                0 <= i < read.m.trace.len() ==> read.m.trace[i] == rest.m.trace.subrange(
                    0,
                    read.m.trace.len() as int,
                )[i]);
        }
    }
}

proof fn lemma_start_gyroscope<E>(run: Run<E>)
    ensures
        magnetometer::start_gyroscope(run).m.world == run.m.world,
        run.m.kept(magnetometer::start_gyroscope(run).m),
        works(run.m.world) && run.ok() ==> magnetometer::start_gyroscope(run).ok(),
{
    broadcast use group_goes_on;

    reveal(magnetometer::start_gyroscope);
}

proof fn lemma_set_master_timing<E>(run: Run<E>)
    ensures
        magnetometer::set_master_timing(run).m.world == run.m.world,
        run.m.kept(magnetometer::set_master_timing(run).m),
        works(run.m.world) && run.ok() ==> magnetometer::set_master_timing(run).ok(),
{
    broadcast use group_goes_on;

    reveal(magnetometer::set_master_timing);
}

proof fn lemma_wake<E>(run: Run<E>)
    ensures
        magnetometer::wake(run).m.world == run.m.world,
        run.m.kept(magnetometer::wake(run).m),
{
    broadcast use group_goes_on;

    lemma_reset_master(run);
    lemma_start_gyroscope(magnetometer::reset_master(run));
    lemma_try_master(
        magnetometer::start_gyroscope(magnetometer::reset_master(run)).select(Bank::Bank0),
        5,
    );
    lemma_set_master_timing(magnetometer::turn_on_master(run));
    lemma_write_mag(
        magnetometer::set_master_timing(magnetometer::turn_on_master(run)),
        AK09916_REG_CNTL3,
        0x01,
    );
}

/// On a chip that keeps `USER_CTRL`, the I2C master is found to be on at the first try.
proof fn lemma_master_on<E>(run: Run<E>, attempts: nat)
    requires
        run.ok(),
        works(run.m.world),
        attempts > 0,
        chip::keeps(magnetometer::try_master(run, attempts).m.trace, Register::UserCtrl),
    ensures
        magnetometer::try_master(run, attempts).ok(),
{
    broadcast use group_goes_on;
    broadcast use crate::chip::group_written;

    let was = run.next_byte();
    let tried = run.modify(Register::UserCtrl, I2C_MST_EN, I2C_MST_EN).ms(10);
    let read = tried.get(Register::UserCtrl);
    let done = magnetometer::try_master(run, attempts);
    reveal(magnetometer::try_master);
    lemma_try_master(read, (attempts - 1) as nat);
    assert(read.m.trace.is_prefix_of(
        read.modify(Register::LpConfig, I2C_MST_CYCLE, 0).ms(10).m.trace,
    )) by {
        reveal(Run::read);
        reveal(Run::put);
        reveal(Run::pause);
    }
    chip::lemma_brought_back(tried, Register::UserCtrl, done.m.trace);
    assert(((was & !I2C_MST_EN) | I2C_MST_EN) & I2C_MST_EN != 0) by (bit_vector);
}

/// On a bus that works, and a chip that keeps `USER_CTRL`, the I2C master is turned on,
/// and the magnetometer is reset if and only if the I2C master says that the reset was
/// transferred.
pub proof fn wake_needs_one_transfer<E>(run: Run<E>)
    requires
        run.ok(),
        works(run.m.world),
        chip::keeps(magnetometer::turn_on_master(run).m.trace, Register::UserCtrl),
    ensures
        magnetometer::turn_on_master(run).ok(),
        magnetometer::wake(run).ok() <==> magnetometer::wait_done(
            magnetometer::send_write(
                magnetometer::set_master_timing(magnetometer::turn_on_master(run)),
                AK09916_REG_CNTL3,
                0x01,
            ),
        ).ok(),
{
    broadcast use group_goes_on;
    broadcast use crate::script::group_steps;

    let reset = magnetometer::reset_master(run);
    let selected = magnetometer::start_gyroscope(reset).select(Bank::Bank0);
    lemma_reset_master(run);
    lemma_start_gyroscope(reset);
    lemma_try_master(selected, 5);
    lemma_master_on(selected, 5);
    let on = magnetometer::turn_on_master(run);
    lemma_set_master_timing(on);
    lemma_write_mag(magnetometer::set_master_timing(on), AK09916_REG_CNTL3, 0x01);
}

/// A transfer is done if the I2C master says so when it is first asked.
pub proof fn done_when_asked<E>(run: Run<E>)
    requires
        run.ok(),
        works(run.m.world),
        run.select(Bank::Bank0).next_byte() & (I2C_SLV4_NACK | I2C_LOST_ARB) == 0,
        run.select(Bank::Bank0).next_byte() & I2C_SLV4_DONE != 0,
    ensures
        magnetometer::wait_done(run).ok(),
{
    broadcast use group_goes_on;

}

} // verus!
