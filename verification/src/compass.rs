//! Laws on the magnetometer: how its registers are reached through the I2C master, what it
//! is set to, and what is read from it.

use vstd::prelude::*;

use crate::device::MagData;
use crate::effects;
use crate::interface::Pause;
use crate::magnetometer;
use crate::magnetometer::{MagMode, MagReading, AK09916_I2C_ADDRESS, MAX_RETRIES};
use crate::nonblocking;
use crate::readings;
use crate::registers::{
    Register, BYPASS_EN, CLKSEL, DISABLE_GYRO_X, DISABLE_GYRO_Y, DISABLE_GYRO_Z, I2C_LOST_ARB,
    I2C_MST_CLK, I2C_MST_CYCLE, I2C_MST_EN, I2C_MST_P_NSR, I2C_MST_RST, I2C_SLV4_DONE,
    I2C_SLV4_NACK, I2C_SLV_BYTE_SW, I2C_SLV_EN, I2C_SLV_GRP, I2C_SLV_RNW, SLEEP,
};
use crate::script::{Model, Run, State};
use crate::{Bank, Error};

verus! {

broadcast use crate::effects::group_effects;

/// Bits as numbers.
proof fn lemma_numbers()
    by (bit_vector)
    ensures
        I2C_SLV4_NACK | I2C_LOST_ARB == 0x30u8,
        AK09916_I2C_ADDRESS | I2C_SLV_RNW == 0x8Cu8,
        I2C_SLV_EN | 9u8 == 0x89u8,
        I2C_SLV_EN | 8u8 == 0x88u8,
        I2C_SLV_EN | 1u8 == 0x81u8,
        I2C_SLV_EN | I2C_SLV_BYTE_SW | I2C_SLV_GRP | 10u8 == 0xDAu8,
        I2C_MST_CLK | I2C_MST_P_NSR == 0x1Fu8,
        0x07u8 | I2C_MST_P_NSR == 0x17u8,
        0x17u8 & 0x1Fu8 == 0x17u8,
        0x07u8 & 0x0Fu8 == 0x07u8,
        DISABLE_GYRO_X | DISABLE_GYRO_Y | DISABLE_GYRO_Z == 0x07u8,
        SLEEP | CLKSEL == 0x47u8,
        0x01u8 & 0x47u8 == 0x01u8,
        0x40u8 & 0x40u8 == 0x40u8,
        0x20u8 & 0x20u8 == 0x20u8,
        0x02u8 & 0x02u8 == 0x02u8,
        0x00u8 & 0x40u8 == 0x00u8,
        0x00u8 & 0x20u8 == 0x00u8,
        0x00u8 & 0x02u8 == 0x00u8,
        0x00u8 & 0x07u8 == 0x00u8,
{
}

/// A status of the I2C master that settles nothing: neither done, nor refused, nor lost.
pub open spec fn pending(status: u8) -> bool {
    status & 0x40 == 0 && status & 0x30 == 0
}

/// The statuses that were read from `from` on.
pub open spec fn statuses<E>(before: Run<E>, after: Run<E>) -> Seq<Seq<u8>> {
    after.saw(Register::I2cMstStatus).skip(before.saw(Register::I2cMstStatus).len() as int)
}

/// So many pauses of a millisecond.
pub open spec fn milliseconds(count: nat) -> Seq<Pause> {
    Seq::new(count, |i: int| Pause::Ms(1))
}

/// The statuses of a wait that ends as it should: it goes on while nothing is settled and
/// ends with the first status that settles something, or with status number `most`.
pub open spec fn ends_rightly(seen: Seq<Seq<u8>>, most: int, ok: bool) -> bool {
    &&& 1 <= seen.len() <= most
    &&& forall|i: int| 0 <= i < seen.len() - 1 ==> pending((#[trigger] seen[i])[0])
    &&& pending(seen.last()[0]) ==> seen.len() == most
    &&& ok <==> seen.last()[0] & 0x40 != 0 && seen.last()[0] & 0x30 == 0
}

proof fn lemma_poll<E>(run: Run<E>, retries: int)
    requires
        0 <= retries <= 51,
    ensures
        ({
            let done = magnetometer::poll_done(run, retries);
            let seen = statuses(run, done);
            &&& effects::only(run, done, set![])
            &&& forall|other: Register|
                other != Register::I2cMstStatus ==> #[trigger] effects::reads(done.m.trace, other)
                    == effects::reads(run.m.trace, other)
            &&& done.m.state == run.m.state
            &&& done.m.world == run.m.world
            &&& done.ok() ==> run.ok()
            &&& done.saw(Register::I2cMstStatus).len() >= run.saw(Register::I2cMstStatus).len()
            &&& forall|i: int|
                0 <= i < run.saw(Register::I2cMstStatus).len() ==> #[trigger] done.saw(
                    Register::I2cMstStatus,
                )[i] == run.saw(Register::I2cMstStatus)[i]
            &&& done.ok() || (run.ok() && run.works()) ==> {
                &&& ends_rightly(seen, 52 - retries, done.ok())
                &&& done.paused() == run.paused() + milliseconds((seen.len() - 1) as nat)
            }
            &&& run.ok() && run.works() && !done.ok() ==> done.failed == Some(
                Error::<E>::Magnetometer,
            )
        }),
    decreases 51 - retries,
{
    lemma_numbers();
    let done = magnetometer::poll_done(run, retries);
    let n = run.saw(Register::I2cMstStatus).len() as int;
    let seen = statuses(run, done);
    if run.ok() {
        let status = run.next_byte();
        let read = run.get(Register::I2cMstStatus);
        if read.ok() {
            assert(read.saw(Register::I2cMstStatus)[n][0] == status);
            if pending(status) && retries <= 50 {
                let then = read.ms(1);
                lemma_poll(then, retries + 1);
                let rest = statuses(then, done);
                if done.ok() || run.works() {
                    assert(seen[0] == then.saw(Register::I2cMstStatus)[n]);
                    assert forall|i: int| 0 <= i < seen.len() - 1 implies pending(
                        (#[trigger] seen[i])[0],
                    ) by {
                        if i > 0 {
                            assert(seen[i] == rest[i - 1]);
                        }
                    }
                    assert(seen.last() == rest.last());
                    assert(done.paused() =~= run.paused() + milliseconds(
                        (seen.len() - 1) as nat,
                    ));
                }
            } else {
                assert(seen.len() == 1);
                assert(done.paused() =~= run.paused() + milliseconds(0));
            }
        } else {
            let then = read.ms(1);
            if retries <= 50 {
                assert(magnetometer::poll_done(then, retries + 1) == then);
            }
        }
    }
}

/// Waiting for a transfer asks the I2C master until its status says that the transfer is
/// done, or that it failed, and no further: it succeeds with the first status that says done
/// and not failed, whichever of the first 52 that is, fails with the first that says failed,
/// and fails after 52 that say neither. A millisecond lies between two questions. Nothing is
/// written.
pub proof fn wait_ends_with_the_first_answer<E>(run: Run<E>)
    ensures
        ({
            let done = magnetometer::wait_done(run);
            let seen = statuses(run, done);
            &&& effects::only(run, done, set![])
            &&& run.m.kept(done.m)
            &&& done.m.world == run.m.world
            &&& done.ok() || (run.ok() && run.works()) ==> {
                &&& ends_rightly(seen, 52, done.ok())
                &&& done.paused() == run.paused() + milliseconds((seen.len() - 1) as nat)
            }
            &&& run.ok() && run.works() && !done.ok() ==> done.failed == Some(
                Error::<E>::Magnetometer,
            )
        }),
{
    lemma_poll(run.select(Bank::Bank0), 0);
}

/// The run in which the status is asked for the time number `k`, counted from 0.
pub open spec fn asking<E>(run: Run<E>, k: nat) -> Run<E>
    decreases k,
{
    if k == 0 {
        run.select(Bank::Bank0)
    } else {
        asking(run, (k - 1) as nat).get(Register::I2cMstStatus).ms(1)
    }
}

proof fn lemma_asking<E>(run: Run<E>, k: nat)
    ensures
        run.ok() && run.works() ==> asking(run, k).ok(),
        asking(run, k).m.world == run.m.world,
    decreases k,
{
    if k > 0 {
        lemma_asking(run, (k - 1) as nat);
    }
}

proof fn lemma_poll_from<E>(run: Run<E>, k: nat)
    requires
        run.ok(),
        run.works(),
        k <= 51,
        forall|j: nat| j < k ==> pending(#[trigger] asking(run, j).next_byte()),
    ensures
        magnetometer::wait_done(run) == magnetometer::poll_done(asking(run, k), k as int),
    decreases k,
{
    lemma_numbers();
    if k > 0 {
        let i = (k - 1) as nat;
        lemma_poll_from(run, i);
        lemma_asking(run, i);
        assert(pending(asking(run, i).next_byte()));
        reveal_with_fuel(magnetometer::poll_done, 2);
    }
}

/// On a bus that works, if question number `k`, of 52, is the first whose answer settles
/// something, waiting ends there: well if the answer is done, with the error for the
/// magnetometer if it is refused or lost.
pub proof fn wait_ends_at_once<E>(run: Run<E>, k: nat)
    requires
        run.ok(),
        run.works(),
        k <= 51,
        forall|j: nat| j < k ==> pending(#[trigger] asking(run, j).next_byte()),
        !pending(asking(run, k).next_byte()),
    ensures
        ({
            let done = magnetometer::wait_done(run);
            let status = asking(run, k).next_byte();
            &&& done.m == asking(run, k).get(Register::I2cMstStatus).m
            &&& done.ok() <==> status & 0x30 == 0
            &&& status & 0x30 != 0 ==> done.failed == Some(Error::<E>::Magnetometer)
        }),
{
    lemma_numbers();
    lemma_poll_from(run, k);
    lemma_asking(run, k);
}

/// A transfer to or from a register of the magnetometer was asked for, with slave 4: the
/// magnetometer's address, with the top bit set for a read, the register, and the bit that
/// sets it going. The I2C master's duty cycle was on for it and is off afterwards.
pub open spec fn transferred<E>(before: Run<E>, after: Run<E>, address: u8, reg: u8) -> bool {
    let c = after.wrote(Register::LpConfig);
    let n = before.wrote(Register::LpConfig).len() as int;
    &&& effects::set_to(before, after, Register::I2cSlv4Addr, address)
    &&& effects::set_to(before, after, Register::I2cSlv4Reg, reg)
    &&& effects::set_to(before, after, Register::I2cSlv4Ctrl, 0x80)
    &&& c == before.wrote(Register::LpConfig).push(c[n]).push(c[n + 1])
    &&& c[n] & 0x40 == 0x40
    &&& c[n + 1] & 0x40 == 0
    &&& c[n + 1] & 0xBF == after.saw_last(Register::LpConfig) & 0xBF
    &&& before.m.kept(after.m)
}

/// The registers that a transfer with slave 4 writes.
pub open spec fn transfer_registers() -> Set<Register> {
    set![
        Register::I2cSlv4Addr,
        Register::I2cSlv4Reg,
        Register::I2cSlv4Ctrl,
        Register::I2cSlv4Do,
        Register::LpConfig,
    ]
}

proof fn lemma_begin<E>(run: Run<E>)
    ensures
        ({
            let done = magnetometer::begin_transfer(run);
            &&& effects::goes_through(run, done)
            &&& done.m.world == run.m.world
            &&& run.m.kept(done.m)
            &&& effects::only(run, done, set![Register::LpConfig])
            &&& done.ok() ==> run.ok() && effects::rewrote(run, done, Register::LpConfig, 0x40, 0x40)
            &&& done.ok() ==> done.paused() == run.paused().push(Pause::Ms(1))
            &&& done.ok() ==> done.saw(Register::I2cMstStatus).len() == run.saw(
                Register::I2cMstStatus,
            ).len() + 1
        }),
{
    lemma_numbers();
    if magnetometer::begin_transfer(run).ok() {
        effects::lemma_rewrote(
            run.select(Bank::Bank0).get(Register::I2cMstStatus),
            Register::LpConfig,
            I2C_MST_CYCLE,
            I2C_MST_CYCLE,
        );
    }
}

/// A transfer begins with a status and a millisecond, and asks for the status a millisecond
/// apart until it is settled.
pub open spec fn waited<E>(before: Run<E>, after: Run<E>) -> bool {
    let asked = after.saw(Register::I2cMstStatus).len() - before.saw(
        Register::I2cMstStatus,
    ).len();
    &&& asked >= 2
    &&& after.paused() == before.paused() + milliseconds((asked - 1) as nat)
}

/// The pauses of a transfer whose request was sent.
proof fn lemma_waited<E>(run: Run<E>, sent: Run<E>)
    requires
        sent.paused() == run.paused().push(Pause::Ms(1)),
        sent.saw(Register::I2cMstStatus).len() == run.saw(Register::I2cMstStatus).len() + 1,
        magnetometer::end_transfer(sent).ok(),
    ensures
        waited(run, magnetometer::end_transfer(sent)),
{
    let done = magnetometer::end_transfer(sent);
    lemma_poll(sent.select(Bank::Bank0), 0);
    let asked = done.saw(Register::I2cMstStatus).len() - run.saw(Register::I2cMstStatus).len();
    assert(done.paused() =~= run.paused() + milliseconds((asked - 1) as nat));
}

proof fn lemma_end<E>(run: Run<E>)
    ensures
        ({
            let done = magnetometer::end_transfer(run);
            &&& done.m.world == run.m.world
            &&& run.m.kept(done.m)
            &&& effects::only(run, done, set![Register::LpConfig])
            &&& done.ok() ==> run.ok() && effects::rewrote(run, done, Register::LpConfig, 0x40, 0)
            &&& run.ok() && run.works() && !done.ok() ==> done.failed == Some(
                Error::<E>::Magnetometer,
            )
        }),
{
    lemma_numbers();
    let waited = magnetometer::wait_done(run);
    lemma_poll(run.select(Bank::Bank0), 0);
    if magnetometer::end_transfer(run).ok() {
        effects::lemma_rewrote(waited.select(Bank::Bank0), Register::LpConfig, I2C_MST_CYCLE, 0);
    }
}

/// Writing a register of the magnetometer transfers the value to it, and touches nothing
/// else. On a bus that works it succeeds if and only if the I2C master says that the
/// transfer is done.
pub proof fn magnetometer_write_is_a_transfer<E>(run: Run<E>, reg: u8, value: u8)
    ensures
        ({
            let done = magnetometer::write_mag(run, reg, value);
            let sent = magnetometer::send_write(run, reg, value);
            &&& effects::only(run, done, transfer_registers())
            &&& run.m.kept(done.m)
            &&& done.m.world == run.m.world
            &&& !run.ok() ==> done == run
            &&& run.ok() && run.works() ==> (done.ok() <==> magnetometer::wait_done(sent).ok())
            &&& run.ok() && run.works() && !done.ok() ==> done.failed == Some(
                Error::<E>::Magnetometer,
            )
            &&& done.ok() ==> {
                &&& run.ok()
                &&& transferred(run, done, 0x0C, reg)
                &&& effects::set_to(run, done, Register::I2cSlv4Do, value)
                &&& waited(run, done)
            }
        }),
{
    lemma_numbers();
    assert(!0x40u8 == 0xBFu8) by (bit_vector);
    reveal(magnetometer::write_mag);
    let sent = magnetometer::send_write(run, reg, value);
    lemma_begin(run);
    lemma_end(sent);
    lemma_poll(sent.select(Bank::Bank0), 0);
    if magnetometer::write_mag(run, reg, value).ok() {
        lemma_waited(run, sent);
    }
}

/// Reading a register of the magnetometer transfers it, brings what slave 4 is then read to
/// have brought, and touches nothing else.
pub proof fn magnetometer_read_is_a_transfer<E>(run: Run<E>, reg: u8)
    ensures
        ({
            let (done, answer) = magnetometer::read_mag(run, reg);
            &&& effects::only(run, done, transfer_registers())
            &&& run.m.kept(done.m)
            &&& done.m.world == run.m.world
            &&& done.ok() ==> {
                &&& run.ok()
                &&& transferred(run, done, 0x8C, reg)
                &&& answer == done.saw_last(Register::I2cSlv4Di)
                &&& waited(run, done)
            }
            &&& done.wrote(Register::I2cSlv4Do) == run.wrote(Register::I2cSlv4Do)
            &&& run.ok() && run.works() && !done.ok() ==> done.failed == Some(
                Error::<E>::Magnetometer,
            )
        }),
{
    lemma_numbers();
    assert(!0x40u8 == 0xBFu8) by (bit_vector);
    reveal(magnetometer::read_mag);
    let sent = magnetometer::begin_transfer(run).put(
        Register::I2cSlv4Addr,
        AK09916_I2C_ADDRESS | I2C_SLV_RNW,
    ).put(Register::I2cSlv4Reg, reg).put(Register::I2cSlv4Ctrl, I2C_SLV_EN);
    lemma_begin(run);
    lemma_end(sent);
    lemma_poll(sent.select(Bank::Bank0), 0);
    if magnetometer::read_mag(run, reg).0.ok() {
        lemma_waited(run, sent);
    }
}

proof fn lemma_slave_bytes<E>(run: Run<E>, bytes: Seq<u8>, to: nat)
    requires
        bytes.len() <= to <= 9,
    ensures
        ({
            let (done, all) = magnetometer::slave_bytes(run, bytes, to);
            &&& effects::goes_through(run, done)
            &&& effects::only(run, done, set![])
            &&& done.paused() == run.paused()
            &&& done.m.state == run.m.state
            &&& done.m.world == run.m.world
            &&& done.ok() ==> run.ok()
            &&& done.ok() ==> {
                &&& all.len() == to
                &&& forall|i: int| 0 <= i < bytes.len() ==> #[trigger] all[i] == bytes[i]
                &&& forall|i: int|
                    bytes.len() <= i < to ==> #[trigger] all[i] == done.saw_last(
                        magnetometer::spec_slave_register(i),
                    )
                &&& forall|i: int|
                    0 <= i < bytes.len() ==> #[trigger] done.saw(
                        magnetometer::spec_slave_register(i),
                    ) == run.saw(magnetometer::spec_slave_register(i))
                &&& forall|i: int|
                    bytes.len() <= i < to ==> #[trigger] done.saw(
                        magnetometer::spec_slave_register(i),
                    ) == run.saw(magnetometer::spec_slave_register(i)).push(
                        done.saw(magnetometer::spec_slave_register(i)).last(),
                    )
            }
        }),
    decreases to - bytes.len(),
{
    if run.ok() && bytes.len() < to {
        let register = magnetometer::spec_slave_register(bytes.len() as int);
        let then = run.get(register);
        let more = bytes.push(run.next_byte());
        lemma_slave_bytes(then, more, to);
        let (done, all) = magnetometer::slave_bytes(run, bytes, to);
        if done.ok() {
            assert forall|i: int| 0 <= i < bytes.len() implies #[trigger] all[i] == bytes[i] by {
                assert(more[i] == bytes[i]);
            }
            assert forall|i: int| bytes.len() <= i < to implies #[trigger] all[i] == done.saw_last(
                magnetometer::spec_slave_register(i),
            ) by {
                if i == bytes.len() {
                    assert(all[i] == more[i]);
                    assert(done.saw(magnetometer::spec_slave_register(i)) == then.saw(register));
                }
            }
            assert forall|i: int| 0 <= i < bytes.len() implies #[trigger] done.saw(
                magnetometer::spec_slave_register(i),
            ) == run.saw(magnetometer::spec_slave_register(i)) by {
                assert(done.saw(magnetometer::spec_slave_register(i)) == then.saw(
                    magnetometer::spec_slave_register(i),
                ));
            }
            assert forall|i: int| bytes.len() <= i < to implies #[trigger] done.saw(
                magnetometer::spec_slave_register(i),
            ) == run.saw(magnetometer::spec_slave_register(i)).push(
                done.saw(magnetometer::spec_slave_register(i)).last(),
            ) by {
                assert(done.saw(magnetometer::spec_slave_register(i)) == if i == bytes.len() {
                    then.saw(register)
                } else {
                    then.saw(magnetometer::spec_slave_register(i)).push(
                        done.saw(magnetometer::spec_slave_register(i)).last(),
                    )
                });
            }
        }
    }
}

/// Of slave 0, the first eight bytes were read once.
pub open spec fn read_once<E>(before: Run<E>, after: Run<E>) -> bool {
    &&& after.saw(Register::ExtSlvSensData00) == before.saw(Register::ExtSlvSensData00).push(
        after.saw(Register::ExtSlvSensData00).last(),
    )
    &&& after.saw(Register::ExtSlvSensData01) == before.saw(Register::ExtSlvSensData01).push(
        after.saw(Register::ExtSlvSensData01).last(),
    )
    &&& after.saw(Register::ExtSlvSensData02) == before.saw(Register::ExtSlvSensData02).push(
        after.saw(Register::ExtSlvSensData02).last(),
    )
    &&& after.saw(Register::ExtSlvSensData03) == before.saw(Register::ExtSlvSensData03).push(
        after.saw(Register::ExtSlvSensData03).last(),
    )
    &&& after.saw(Register::ExtSlvSensData04) == before.saw(Register::ExtSlvSensData04).push(
        after.saw(Register::ExtSlvSensData04).last(),
    )
    &&& after.saw(Register::ExtSlvSensData05) == before.saw(Register::ExtSlvSensData05).push(
        after.saw(Register::ExtSlvSensData05).last(),
    )
    &&& after.saw(Register::ExtSlvSensData06) == before.saw(Register::ExtSlvSensData06).push(
        after.saw(Register::ExtSlvSensData06).last(),
    )
    &&& after.saw(Register::ExtSlvSensData07) == before.saw(Register::ExtSlvSensData07).push(
        after.saw(Register::ExtSlvSensData07).last(),
    )
}

/// A reading of the magnetometer is what slave 0 was read to have brought, the low byte of
/// each axis first, from its second byte on, or from its first on where slave 0 begins with
/// the data. It fails before the magnetometer was set up, without an access, and when the
/// eighth byte tells of an overflow; on a bus that works it does not fail otherwise. Nothing
/// is written.
pub proof fn magnetometer_reading_is_six_bytes<E>(run: Run<E>, len: nat, first: int)
    requires
        8 <= len <= 9,
        0 <= first <= 1,
    ensures
        ({
            let (done, data) = magnetometer::measure(run, len, first);
            let status = done.saw_last(Register::ExtSlvSensData07);
            &&& effects::only(run, done, set![])
            &&& done.paused() == run.paused()
            &&& done.m.world == run.m.world
            &&& run.m.kept(done.m)
            &&& done.ok() ==> run.ok()
            &&& run.ok() && !run.state().mag_initialized ==> {
                &&& done.failed == Some(Error::<E>::Magnetometer)
                &&& done.m == run.m
            }
            &&& run.ok() && run.works() && run.state().mag_initialized ==> {
                &&& done.ok() <==> status & 0x08 == 0
                &&& status & 0x08 != 0 ==> done.failed == Some(Error::<E>::Magnetometer)
            }
            &&& done.ok() ==> {
                &&& run.state().mag_initialized
                &&& status & 0x08 == 0
                &&& read_once(run, done)
            }
            &&& done.ok() && first == 1 ==> {
                &&& data.x == readings::word(
                    done.saw_last(Register::ExtSlvSensData02),
                    done.saw_last(Register::ExtSlvSensData01),
                )
                &&& data.y == readings::word(
                    done.saw_last(Register::ExtSlvSensData04),
                    done.saw_last(Register::ExtSlvSensData03),
                )
                &&& data.z == readings::word(
                    done.saw_last(Register::ExtSlvSensData06),
                    done.saw_last(Register::ExtSlvSensData05),
                )
            }
            &&& done.ok() && first == 0 ==> {
                &&& data.x == readings::word(
                    done.saw_last(Register::ExtSlvSensData01),
                    done.saw_last(Register::ExtSlvSensData00),
                )
                &&& data.y == readings::word(
                    done.saw_last(Register::ExtSlvSensData03),
                    done.saw_last(Register::ExtSlvSensData02),
                )
                &&& data.z == readings::word(
                    done.saw_last(Register::ExtSlvSensData05),
                    done.saw_last(Register::ExtSlvSensData04),
                )
            }
        }),
{
    let (read, bytes) = magnetometer::slave_bytes(run.select(Bank::Bank0), Seq::empty(), len);
    lemma_slave_bytes(run.select(Bank::Bank0), Seq::empty(), len);
    if read.ok() {
        assert(bytes[0] == read.saw_last(Register::ExtSlvSensData00));
        assert(bytes[1] == read.saw_last(Register::ExtSlvSensData01));
        assert(bytes[2] == read.saw_last(Register::ExtSlvSensData02));
        assert(bytes[3] == read.saw_last(Register::ExtSlvSensData03));
        assert(bytes[4] == read.saw_last(Register::ExtSlvSensData04));
        assert(bytes[5] == read.saw_last(Register::ExtSlvSensData05));
        assert(bytes[6] == read.saw_last(Register::ExtSlvSensData06));
        assert(bytes[7] == read.saw_last(Register::ExtSlvSensData07));
        let selected = run.select(Bank::Bank0);
        assert(read.saw(magnetometer::spec_slave_register(0)) == selected.saw(
            Register::ExtSlvSensData00,
        ).push(read.saw(Register::ExtSlvSensData00).last()));
        assert(read.saw(magnetometer::spec_slave_register(1)) == selected.saw(
            Register::ExtSlvSensData01,
        ).push(read.saw(Register::ExtSlvSensData01).last()));
        assert(read.saw(magnetometer::spec_slave_register(2)) == selected.saw(
            Register::ExtSlvSensData02,
        ).push(read.saw(Register::ExtSlvSensData02).last()));
        assert(read.saw(magnetometer::spec_slave_register(3)) == selected.saw(
            Register::ExtSlvSensData03,
        ).push(read.saw(Register::ExtSlvSensData03).last()));
        assert(read.saw(magnetometer::spec_slave_register(4)) == selected.saw(
            Register::ExtSlvSensData04,
        ).push(read.saw(Register::ExtSlvSensData04).last()));
        assert(read.saw(magnetometer::spec_slave_register(5)) == selected.saw(
            Register::ExtSlvSensData05,
        ).push(read.saw(Register::ExtSlvSensData05).last()));
        assert(read.saw(magnetometer::spec_slave_register(6)) == selected.saw(
            Register::ExtSlvSensData06,
        ).push(read.saw(Register::ExtSlvSensData06).last()));
        assert(read.saw(magnetometer::spec_slave_register(7)) == selected.saw(
            Register::ExtSlvSensData07,
        ).push(read.saw(Register::ExtSlvSensData07).last()));
    }
}

/// A reading carries the counts and the calibration that the driver remembers, as they are.
pub proof fn magnetometer_reading_carries_the_calibration(data: MagData, state: State)
    ensures
        ({
            let reading = magnetometer::calibrated(data, state);
            &&& (reading.x, reading.y, reading.z) == (data.x, data.y, data.z)
            &&& reading.calibration == state.mag_calibration
        }),
{
}

/// What a caller gets of the magnetometer: raw, the three axes in what slave 0 brought from
/// its second byte on; else the same with the calibration that the driver remembers. It
/// fails before the magnetometer was set up, and on an overflow.
pub proof fn magnetometer_reads_what_is_measured<E>(run: Run<E>)
    ensures
        ({
            let (done, (x, y, z)) = magnetometer::read_raw(run);
            let status = done.saw_last(Register::ExtSlvSensData07);
            &&& effects::only(run, done, set![])
            &&& done.paused() == run.paused()
            &&& run.m.kept(done.m)
            &&& run.ok() && !run.state().mag_initialized ==> done.failed == Some(
                Error::<E>::Magnetometer,
            ) && done.m == run.m
            &&& run.ok() && run.works() && run.state().mag_initialized ==> {
                &&& done.ok() <==> status & 0x08 == 0
                &&& !done.ok() ==> done.failed == Some(Error::<E>::Magnetometer)
            }
            &&& done.ok() ==> {
                &&& run.state().mag_initialized
                &&& read_once(run, done)
                &&& x == readings::word(
                    done.saw_last(Register::ExtSlvSensData02),
                    done.saw_last(Register::ExtSlvSensData01),
                )
                &&& y == readings::word(
                    done.saw_last(Register::ExtSlvSensData04),
                    done.saw_last(Register::ExtSlvSensData03),
                )
                &&& z == readings::word(
                    done.saw_last(Register::ExtSlvSensData06),
                    done.saw_last(Register::ExtSlvSensData05),
                )
            }
        }),
        ({
            let (done, reading) = magnetometer::read(run);
            let status = done.saw_last(Register::ExtSlvSensData07);
            &&& effects::only(run, done, set![])
            &&& done.paused() == run.paused()
            &&& run.m.kept(done.m)
            &&& run.ok() && !run.state().mag_initialized ==> done.failed == Some(
                Error::<E>::Magnetometer,
            ) && done.m == run.m
            &&& run.ok() && run.works() && run.state().mag_initialized ==> {
                &&& done.ok() <==> status & 0x08 == 0
                &&& !done.ok() ==> done.failed == Some(Error::<E>::Magnetometer)
            }
            &&& done.ok() ==> {
                &&& run.state().mag_initialized
                &&& read_once(run, done)
                &&& reading.x == readings::word(
                    done.saw_last(Register::ExtSlvSensData02),
                    done.saw_last(Register::ExtSlvSensData01),
                )
                &&& reading.y == readings::word(
                    done.saw_last(Register::ExtSlvSensData04),
                    done.saw_last(Register::ExtSlvSensData03),
                )
                &&& reading.z == readings::word(
                    done.saw_last(Register::ExtSlvSensData06),
                    done.saw_last(Register::ExtSlvSensData05),
                )
                &&& reading.calibration == run.state().mag_calibration
            }
        }),
{
    magnetometer_reading_is_six_bytes(run, 8, 1);
    magnetometer_reading_is_six_bytes(run, 9, 1);
}

/// The same holds without blocking, from the first byte on.
pub proof fn nonblocking_magnetometer_reads_what_is_measured<E>(run: Run<E>)
    ensures
        ({
            let (done, (x, y, z)) = nonblocking::read_raw(run);
            let status = done.saw_last(Register::ExtSlvSensData07);
            &&& effects::only(run, done, set![])
            &&& done.paused() == run.paused()
            &&& run.m.kept(done.m)
            &&& run.ok() && !run.state().mag_initialized ==> done.failed == Some(
                Error::<E>::Magnetometer,
            ) && done.m == run.m
            &&& run.ok() && run.works() && run.state().mag_initialized ==> {
                &&& done.ok() <==> status & 0x08 == 0
                &&& !done.ok() ==> done.failed == Some(Error::<E>::Magnetometer)
            }
            &&& done.ok() ==> {
                &&& run.state().mag_initialized
                &&& read_once(run, done)
                &&& x == readings::word(
                    done.saw_last(Register::ExtSlvSensData01),
                    done.saw_last(Register::ExtSlvSensData00),
                )
                &&& y == readings::word(
                    done.saw_last(Register::ExtSlvSensData03),
                    done.saw_last(Register::ExtSlvSensData02),
                )
                &&& z == readings::word(
                    done.saw_last(Register::ExtSlvSensData05),
                    done.saw_last(Register::ExtSlvSensData04),
                )
            }
        }),
        ({
            let (done, reading) = nonblocking::read(run);
            let status = done.saw_last(Register::ExtSlvSensData07);
            &&& effects::only(run, done, set![])
            &&& done.paused() == run.paused()
            &&& run.m.kept(done.m)
            &&& run.ok() && !run.state().mag_initialized ==> done.failed == Some(
                Error::<E>::Magnetometer,
            ) && done.m == run.m
            &&& run.ok() && run.works() && run.state().mag_initialized ==> {
                &&& done.ok() <==> status & 0x08 == 0
                &&& !done.ok() ==> done.failed == Some(Error::<E>::Magnetometer)
            }
            &&& done.ok() ==> {
                &&& run.state().mag_initialized
                &&& read_once(run, done)
                &&& reading.x == readings::word(
                    done.saw_last(Register::ExtSlvSensData01),
                    done.saw_last(Register::ExtSlvSensData00),
                )
                &&& reading.y == readings::word(
                    done.saw_last(Register::ExtSlvSensData03),
                    done.saw_last(Register::ExtSlvSensData02),
                )
                &&& reading.z == readings::word(
                    done.saw_last(Register::ExtSlvSensData05),
                    done.saw_last(Register::ExtSlvSensData04),
                )
                &&& reading.calibration == run.state().mag_calibration
            }
        }),
{
    magnetometer_reading_is_six_bytes(run, 8, 0);
    magnetometer_reading_is_six_bytes(run, 8, 0);
}

/// The magnetometer has a new reading if and only if it was set up and bit 0 of its first
/// status byte was read as set. Before it was set up it is not asked.
pub proof fn magnetometer_readiness_is_one_bit<E>(run: Run<E>)
    ensures
        ({
            let (done, ready) = magnetometer::data_ready(run);
            let status = done.saw_last(Register::ExtSlvSensData00);
            &&& effects::goes_through(run, done)
            &&& effects::only(run, done, set![])
            &&& done.paused() == run.paused()
            &&& !run.state().mag_initialized ==> !ready && done == run
            &&& run.state().mag_initialized && done.ok() ==> {
                &&& ready == (status & 0x01 != 0)
                &&& done.saw(Register::ExtSlvSensData00).len() == run.saw(
                    Register::ExtSlvSensData00,
                ).len() + 1
            }
        }),
{
}

/// A self-test reading is good if and only if some axis is not zero and no axis is at the
/// end of its range, on either side.
pub proof fn good_self_tests_are_inside(data: MagData)
    ensures
        magnetometer::good_self_test(data) <==> {
            &&& (data.x, data.y, data.z) != (0i16, 0i16, 0i16)
            &&& data.x < 32767 && -data.x < 32767
            &&& data.y < 32767 && -data.y < 32767
            &&& data.z < 32767 && -data.z < 32767
        },
{
}

/// Resetting the I2C master turns the bypass off, and the master off; raises its reset bit
/// and lowers it again, ten milliseconds apart; and changes nothing else.
pub proof fn master_reset_raises_and_lowers<E>(run: Run<E>)
    ensures
        ({
            let done = magnetometer::reset_master(run);
            let u = done.wrote(Register::UserCtrl);
            let n = run.wrote(Register::UserCtrl).len() as int;
            &&& effects::goes_through(run, done)
            &&& effects::only(run, done, set![Register::IntPinCfg, Register::UserCtrl])
            &&& done.m.world == run.m.world
            &&& run.m.kept(done.m)
            &&& done.ok() ==> {
                &&& run.ok()
                &&& effects::rewrote(run, done, Register::IntPinCfg, 0x02, 0)
                &&& u == run.wrote(Register::UserCtrl).push(u[n]).push(u[n + 1]).push(u[n + 2])
                &&& u[n] & 0x20 == 0
                &&& u[n + 1] & 0x02 == 0x02
                &&& u[n + 2] & 0x02 == 0
                &&& done.paused() == run.paused().push(Pause::Ms(1)).push(Pause::Ms(10)).push(
                    Pause::Ms(1),
                )
            }
        }),
{
    lemma_numbers();
    reveal(magnetometer::reset_master);
    let a = run.select(Bank::Bank0);
    let b = a.modify(Register::IntPinCfg, BYPASS_EN, 0);
    let c = b.modify(Register::UserCtrl, I2C_MST_EN, 0).ms(1);
    let d = c.modify(Register::UserCtrl, I2C_MST_RST, I2C_MST_RST).ms(10);
    if magnetometer::reset_master(run).ok() {
        effects::lemma_rewrote(a, Register::IntPinCfg, BYPASS_EN, 0);
        effects::lemma_rewrote(b, Register::UserCtrl, I2C_MST_EN, 0);
        effects::lemma_rewrote(c, Register::UserCtrl, I2C_MST_RST, I2C_MST_RST);
        effects::lemma_rewrote(d, Register::UserCtrl, I2C_MST_RST, 0);
    }
}

/// For the I2C master, the three axes of the gyroscope are switched on, and a chip that is
/// found asleep is woken, with the best clock. Nothing else changes.
pub proof fn gyroscope_is_switched_on<E>(run: Run<E>)
    ensures
        ({
            let done = magnetometer::start_gyroscope(run);
            let power = done.saw(Register::PwrMgmt1)[run.saw(Register::PwrMgmt1).len() as int][0];
            &&& effects::goes_through(run, done)
            &&& effects::only(run, done, set![Register::PwrMgmt1, Register::PwrMgmt2])
            &&& done.m.world == run.m.world
            &&& run.m.kept(done.m)
            &&& done.ok() ==> {
                &&& run.ok()
                &&& effects::rewrote(run, done, Register::PwrMgmt2, 0x07, 0)
                &&& if power & 0x40 != 0 {
                    let p = done.wrote(Register::PwrMgmt1);
                    &&& p == run.wrote(Register::PwrMgmt1).push(p.last())
                    &&& p.last() & 0x47 == 0x01
                    &&& p.last() & 0xB8 == done.saw_last(Register::PwrMgmt1) & 0xB8
                    &&& done.paused() == run.paused().push(Pause::Ms(50)).push(Pause::Ms(50))
                } else {
                    &&& done.wrote(Register::PwrMgmt1) == run.wrote(Register::PwrMgmt1)
                    &&& done.paused() == run.paused().push(Pause::Ms(50))
                }
            }
        }),
{
    lemma_numbers();
    assert(!0x47u8 == 0xB8u8) by (bit_vector);
    reveal(magnetometer::start_gyroscope);
    let a = run.select(Bank::Bank0);
    let all = DISABLE_GYRO_X | DISABLE_GYRO_Y | DISABLE_GYRO_Z;
    let on = a.modify(Register::PwrMgmt2, all, 0).ms(50);
    if magnetometer::start_gyroscope(run).ok() {
        effects::lemma_rewrote(a, Register::PwrMgmt2, all, 0);
        if on.next_byte() & SLEEP != 0 {
            effects::lemma_rewrote(
                on.get(Register::PwrMgmt1),
                Register::PwrMgmt1,
                SLEEP | CLKSEL,
                1,
            );
        }
    }
}

/// The I2C master is turned on again until it is read to be on, at most `attempts` times,
/// and once it is, its duty cycle is stopped. If it never is, the call fails with the error
/// for the magnetometer. Nothing else changes.
#[verifier::spinoff_prover]
#[verifier::rlimit(60)]
pub proof fn master_is_tried_until_it_is_on<E>(run: Run<E>, attempts: nat)
    requires
        attempts > 0,
    ensures
        ({
            let done = magnetometer::try_master(run, attempts);
            let n = run.wrote(Register::UserCtrl).len() as int;
            let k = run.saw(Register::UserCtrl).len() as int;
            let u = done.wrote(Register::UserCtrl);
            let seen = done.saw(Register::UserCtrl);
            let tries = u.len() - n;
            &&& effects::only(run, done, set![Register::UserCtrl, Register::LpConfig])
            &&& done.m.world == run.m.world
            &&& done.m.state == run.m.state
            &&& done.ok() ==> run.ok()
            &&& forall|i: int|
                0 <= i < n ==> #[trigger] u[i] == run.wrote(Register::UserCtrl)[i]
            &&& forall|i: int|
                0 <= i < k ==> #[trigger] seen[i] == run.saw(Register::UserCtrl)[i]
            &&& u.len() >= n && seen.len() >= k
            &&& done.ok() || (run.ok() && run.works()) ==> {
                &&& 1 <= tries <= attempts
                &&& seen.len() == k + 2 * tries
                &&& forall|i: int| n <= i < u.len() ==> #[trigger] u[i] & 0x20 == 0x20
                &&& forall|i: int|
                    0 <= i < tries - 1 ==> #[trigger] seen[k + 2 * i + 1][0] & 0x20 == 0
                &&& done.ok() <==> seen.last()[0] & 0x20 != 0
                &&& !done.ok() ==> tries == attempts && done.failed == Some(
                    Error::<E>::Magnetometer,
                )
            }
            &&& done.ok() ==> {
                &&& effects::rewrote(run, done, Register::LpConfig, 0x40, 0)
                &&& done.paused() == run.paused() + tens((tries + 1) as nat)
            }
        }),
    decreases attempts,
{
    lemma_numbers();
    reveal(magnetometer::try_master);
    let n = run.wrote(Register::UserCtrl).len() as int;
    let k = run.saw(Register::UserCtrl).len() as int;
    let set = run.modify(Register::UserCtrl, I2C_MST_EN, I2C_MST_EN);
    let tried = set.ms(10);
    let read = tried.get(Register::UserCtrl);
    let done = magnetometer::try_master(run, attempts);
    if set.ok() {
        effects::lemma_rewrote(run, Register::UserCtrl, I2C_MST_EN, I2C_MST_EN);
    }
    if run.ok() {
        if tried.next_byte() & I2C_MST_EN != 0 {
            if done.ok() {
                effects::lemma_rewrote(read, Register::LpConfig, I2C_MST_CYCLE, 0);
                assert(done.paused() =~= run.paused() + tens(2));
            }
        } else if attempts > 1 {
            master_is_tried_until_it_is_on(read, (attempts - 1) as nat);
            let u = done.wrote(Register::UserCtrl);
            let seen = done.saw(Register::UserCtrl);
            if done.ok() || run.works() {
                assert(read.ok());
                assert(read.wrote(Register::UserCtrl).len() == n + 1);
                assert(read.saw(Register::UserCtrl).len() == k + 2);
                assert(u[n] == read.wrote(Register::UserCtrl)[n]);
                assert(seen[k + 1] == read.saw(Register::UserCtrl)[k + 1]);
                let tries = u.len() - n;
                if done.ok() {
                    assert(done.paused() =~= run.paused() + tens((tries + 1) as nat));
                }
                assert forall|i: int| 0 <= i < tries - 1 implies #[trigger] seen[k + 2 * i + 1][0]
                    & 0x20 == 0 by {
                    if i > 0 {
                        let j = i - 1;
                        assert(seen[(k + 2) + 2 * j + 1][0] & 0x20 == 0);
                    }
                }
            }
        } else {
            assert(magnetometer::try_master(read, 0) == read.fail(Error::Magnetometer));
        }
    }
}

/// The timing of the I2C master: the gyroscope undivided, an output rate of its own, its
/// clock and a stop between reads, and no delay. Nothing else changes.
pub proof fn master_timing_is_set<E>(run: Run<E>)
    ensures
        ({
            let done = magnetometer::set_master_timing(run);
            &&& effects::goes_through(run, done)
            &&& effects::only(
                run,
                done,
                set![
                    Register::GyroSmplrtDiv,
                    Register::I2cMstOdrConfig,
                    Register::I2cMstCtrl,
                    Register::I2cMstDelayCtrl,
                ],
            )
            &&& done.m.world == run.m.world
            &&& run.m.kept(done.m)
            &&& done.ok() ==> {
                &&& run.ok()
                &&& effects::set_to(run, done, Register::GyroSmplrtDiv, 0)
                &&& effects::set_to(run, done, Register::I2cMstOdrConfig, 0x04)
                &&& effects::rewrote(run, done, Register::I2cMstCtrl, 0x1F, 0x17)
                &&& effects::set_to(run, done, Register::I2cMstDelayCtrl, 0)
                &&& done.paused() == run.paused().push(Pause::Ms(10))
            }
        }),
{
    lemma_numbers();
    reveal(magnetometer::set_master_timing);
    let a = run.select(Bank::Bank2).put(Register::GyroSmplrtDiv, 0).select(Bank::Bank3).put(
        Register::I2cMstOdrConfig,
        0x04,
    );
    if magnetometer::set_master_timing(run).ok() {
        effects::lemma_rewrote(
            a,
            Register::I2cMstCtrl,
            I2C_MST_CLK | I2C_MST_P_NSR,
            0x07 | I2C_MST_P_NSR,
        );
    }
}

/// Restarting the I2C master resets it, turns it on and sets its clock. Nothing else changes.
pub proof fn master_restart_turns_on<E>(run: Run<E>)
    ensures
        ({
            let done = magnetometer::restart_master(run);
            let u = done.wrote(Register::UserCtrl);
            let n = run.wrote(Register::UserCtrl).len() as int;
            &&& effects::goes_through(run, done)
            &&& effects::only(
                run,
                done,
                set![Register::IntPinCfg, Register::UserCtrl, Register::I2cMstCtrl],
            )
            &&& done.m.world == run.m.world
            &&& run.m.kept(done.m)
            &&& done.ok() ==> {
                &&& run.ok()
                &&& effects::rewrote(run, done, Register::IntPinCfg, 0x02, 0)
                &&& u.len() == n + 4
                &&& u[n] & 0x20 == 0
                &&& u[n + 1] & 0x02 == 0x02
                &&& u[n + 2] & 0x02 == 0
                &&& u[n + 3] & 0x20 == 0x20
                &&& effects::rewrote(run, done, Register::I2cMstCtrl, 0x1F, 0x17)
                &&& done.paused() == run.paused().push(Pause::Ms(1)).push(Pause::Ms(10)).push(
                    Pause::Ms(1),
                ).push(Pause::Ms(10)).push(Pause::Ms(10))
            }
        }),
{
    lemma_numbers();
    reveal(magnetometer::restart_master);
    reveal(magnetometer::reset_master);
    let reset = magnetometer::reset_master(run);
    master_reset_raises_and_lowers(run);
    let on = reset.modify(Register::UserCtrl, I2C_MST_EN, I2C_MST_EN).ms(10).select(Bank::Bank3);
    if magnetometer::restart_master(run).ok() {
        effects::lemma_rewrote(reset, Register::UserCtrl, I2C_MST_EN, I2C_MST_EN);
        effects::lemma_rewrote(
            on,
            Register::I2cMstCtrl,
            I2C_MST_CLK | I2C_MST_P_NSR,
            0x07 | I2C_MST_P_NSR,
        );
    }
}

/// The I2C master is on, with the bypass off and its clock set.
pub open spec fn master_on<E>(run: Run<E>) -> bool {
    &&& run.wrote(Register::UserCtrl).len() > 0
    &&& run.wrote(Register::UserCtrl).last() & 0x20 == 0x20
    &&& run.wrote(Register::IntPinCfg).len() > 0
    &&& run.wrote(Register::IntPinCfg).last() & 0x02 == 0
    &&& run.wrote(Register::I2cMstCtrl).len() > 0
    &&& run.wrote(Register::I2cMstCtrl).last() & 0x1F == 0x17
}

/// The registers that asking the magnetometer who it is writes.
pub open spec fn identification_registers() -> Set<Register> {
    transfer_registers().union(
        set![Register::IntPinCfg, Register::UserCtrl, Register::I2cMstCtrl],
    )
}

/// Asking the magnetometer who it is leaves the I2C master on, and succeeds only with the
/// expected answer. Nothing but the I2C master is touched.
pub proof fn identification_needs_the_answer<E>(
    run: Run<E>,
    reg: u8,
    expected: u8,
    attempts: nat,
)
    ensures
        ({
            let done = magnetometer::identify(run, reg, expected, attempts);
            &&& effects::only(run, done, identification_registers())
            &&& done.wrote(Register::I2cSlv4Do) == run.wrote(Register::I2cSlv4Do)
            &&& done.m.world == run.m.world
            &&& run.m.kept(done.m)
            &&& done.ok() ==> {
                &&& run.ok()
                &&& attempts > 0
                &&& done.saw_last(Register::I2cSlv4Di) == expected
                &&& done.wrote(Register::I2cSlv4Reg).last() == reg
                &&& done.wrote(Register::I2cSlv4Addr).last() == 0x8C
                &&& master_on(run) ==> master_on(done)
            }
        }),
    decreases attempts,
{
    reveal(magnetometer::identify);
    let (asked, answer) = magnetometer::read_mag(run, reg);
    magnetometer_read_is_a_transfer(run, reg);
    if run.ok() && attempts > 1 && !(asked.ok() && answer == expected) {
        let restarted = magnetometer::restart_master(asked.forgive());
        master_restart_turns_on(asked.forgive());
        identification_needs_the_answer(restarted, reg, expected, (attempts - 1) as nat);
        if restarted.ok() {
            assert(master_on(restarted));
        }
    }
}

/// The registers that setting the magnetometer up writes.
pub open spec fn set_up_registers() -> Set<Register> {
    identification_registers().union(
        set![
            Register::PwrMgmt1,
            Register::PwrMgmt2,
            Register::GyroSmplrtDiv,
            Register::I2cMstOdrConfig,
            Register::I2cMstDelayCtrl,
            Register::I2cSlv0Addr,
            Register::I2cSlv0Reg,
            Register::I2cSlv0Ctrl,
        ],
    )
}

/// The last pauses are these.
pub open spec fn ends_with(pauses: Seq<Pause>, last: Seq<Pause>) -> bool {
    &&& pauses.len() >= last.len()
    &&& pauses.skip(pauses.len() - last.len()) == last
}

/// Waking the magnetometer turns the I2C master on, sends the magnetometer a reset and gives
/// it a hundred milliseconds.
#[verifier::spinoff_prover]
#[verifier::rlimit(60)]
pub proof fn waking_resets<E>(run: Run<E>)
    ensures
        ({
            let done = magnetometer::wake(run);
            &&& effects::only(run, done, set_up_registers())
            &&& run.m.kept(done.m)
            &&& done.ok() ==> {
                &&& master_on(done)
                &&& effects::set_to(run, done, Register::I2cSlv4Addr, 0x0C)
                &&& effects::set_to(run, done, Register::I2cSlv4Reg, 0x32)
                &&& effects::set_to(run, done, Register::I2cSlv4Do, 0x01)
                &&& ends_with(done.paused(), seq![Pause::Ms(100)])
            }
        }),
{
    let reset = magnetometer::reset_master(run);
    master_reset_raises_and_lowers(run);
    let started = magnetometer::start_gyroscope(reset);
    gyroscope_is_switched_on(reset);
    let tried = magnetometer::turn_on_master(run);
    master_is_tried_until_it_is_on(started.select(Bank::Bank0), 5);
    let timed = magnetometer::set_master_timing(tried);
    master_timing_is_set(tried);
    magnetometer_write_is_a_transfer(timed, magnetometer::AK09916_REG_CNTL3, 0x01);
    if tried.ok() {
        let u = tried.wrote(Register::UserCtrl);
        assert(u[u.len() - 1] & 0x20 == 0x20);
    }
    let done = magnetometer::wake(run);
    if done.ok() {
        assert(done.paused().skip(done.paused().len() - 1) =~= seq![Pause::Ms(100)]);
    }
}

/// Slave 0 is told to read nine bytes from the magnetometer's first status register on, and
/// is given ten milliseconds.
pub proof fn slave_reads_nine_bytes<E>(run: Run<E>)
    ensures
        ({
            let done = magnetometer::point_slave0(run);
            &&& effects::goes_through(run, done)
            &&& effects::only(
                run,
                done,
                set![Register::I2cSlv0Addr, Register::I2cSlv0Reg, Register::I2cSlv0Ctrl],
            )
            &&& run.m.kept(done.m)
            &&& done.ok() ==> {
                &&& effects::set_to(run, done, Register::I2cSlv0Addr, 0x8C)
                &&& effects::set_to(run, done, Register::I2cSlv0Reg, 0x10)
                &&& effects::set_to(run, done, Register::I2cSlv0Ctrl, 0x89)
                &&& done.paused() == run.paused().push(Pause::Ms(10))
            }
        }),
{
    lemma_numbers();
    reveal(magnetometer::set_slave0);
}

/// When the magnetometer was set up, it had given the right answer; the I2C master is on,
/// with its timing set and the gyroscope switched on for it; slave 0 reads nine bytes from
/// the magnetometer's first status register on; the magnetometer was last told the mode that
/// was asked for; and the driver knows that it is set up. Nothing else was touched, and a
/// failure leaves what the driver remembers alone.
#[verifier::spinoff_prover]
#[verifier::rlimit(60)]
pub proof fn set_up_sets_up<E>(run: Run<E>, mode: MagMode)
    ensures
        ({
            let done = magnetometer::set_up(run, mode);
            &&& effects::only(run, done, set_up_registers())
            &&& !done.ok() ==> run.m.kept(done.m)
            &&& done.ok() ==> {
                &&& done.saw_last(Register::I2cSlv4Di) == 0x09
                &&& master_on(done)
                &&& effects::set_to(
                    run,
                    done,
                    Register::PwrMgmt2,
                    done.wrote(Register::PwrMgmt2).last(),
                )
                &&& done.wrote(Register::PwrMgmt2).last() & 0x07 == 0
                &&& effects::set_to(run, done, Register::GyroSmplrtDiv, 0)
                &&& effects::set_to(run, done, Register::I2cMstOdrConfig, 0x04)
                &&& effects::set_to(run, done, Register::I2cMstDelayCtrl, 0)
                &&& effects::set_to(run, done, Register::I2cSlv0Addr, 0x8C)
                &&& effects::set_to(run, done, Register::I2cSlv0Reg, 0x10)
                &&& effects::set_to(run, done, Register::I2cSlv0Ctrl, 0x89)
                &&& done.wrote(Register::I2cSlv4Addr).last() == 0x0C
                &&& done.wrote(Register::I2cSlv4Reg).last() == 0x31
                &&& done.wrote(Register::I2cSlv4Do) == run.wrote(Register::I2cSlv4Do).push(
                    0x01,
                ).push(mode.code())
                &&& done.wrote(Register::LpConfig).last() & 0x40 == 0x40
                &&& ends_with(done.paused(), seq![Pause::Ms(10), Pause::Ms(10)])
                &&& done.state().mag_initialized
                &&& run.m.kept(
                    (Model {
                        state: State {
                            mag_initialized: run.state().mag_initialized,
                            ..done.state()
                        },
                        ..done.m
                    }),
                )
            }
        }),
{
    lemma_numbers();
    reveal(magnetometer::set_slave0);
    let reset = magnetometer::reset_master(run);
    master_reset_raises_and_lowers(run);
    let started = magnetometer::start_gyroscope(reset);
    gyroscope_is_switched_on(reset);
    let tried = magnetometer::turn_on_master(run);
    master_is_tried_until_it_is_on(started.select(Bank::Bank0), 5);
    let timed = magnetometer::set_master_timing(tried);
    master_timing_is_set(tried);
    let cleared = magnetometer::write_mag(timed, magnetometer::AK09916_REG_CNTL3, 0x01);
    magnetometer_write_is_a_transfer(timed, magnetometer::AK09916_REG_CNTL3, 0x01);
    let woken = magnetometer::wake(run);
    let found = magnetometer::identify(
        woken,
        magnetometer::AK09916_REG_WIA2,
        magnetometer::AK09916_WIA2_VALUE,
        magnetometer::MAX_STARTS as nat,
    );
    identification_needs_the_answer(
        woken,
        magnetometer::AK09916_REG_WIA2,
        magnetometer::AK09916_WIA2_VALUE,
        magnetometer::MAX_STARTS as nat,
    );
    let pointed = magnetometer::point_slave0(found);
    let sent = magnetometer::write_mag(pointed, magnetometer::AK09916_REG_CNTL2, mode.code());
    magnetometer_write_is_a_transfer(pointed, magnetometer::AK09916_REG_CNTL2, mode.code());
    let ready = sent.ms(10).select(Bank::Bank0);
    lemma_write_sees_no_answer(pointed, magnetometer::AK09916_REG_CNTL2, mode.code());
    if tried.ok() {
        let u = tried.wrote(Register::UserCtrl);
        assert(u[u.len() - 1] & 0x20 == 0x20);
    }
    if magnetometer::set_up(run, mode).ok() {
        assert(master_on(woken));
        effects::lemma_rewrote(ready, Register::LpConfig, I2C_MST_CYCLE, I2C_MST_CYCLE);
        let p = magnetometer::set_up(run, mode).paused();
        assert(p.skip(p.len() - 2) =~= seq![Pause::Ms(10), Pause::Ms(10)]);
    }
}

/// Writing a register of the magnetometer reads no answer of it.
proof fn lemma_write_sees_no_answer<E>(run: Run<E>, reg: u8, value: u8)
    ensures
        magnetometer::write_mag(run, reg, value).saw(Register::I2cSlv4Di) == run.saw(
            Register::I2cSlv4Di,
        ),
        magnetometer::write_mag(run, reg, value).saw(Register::UserCtrl) == run.saw(
            Register::UserCtrl,
        ),
{
    reveal(magnetometer::write_mag);
    lemma_poll(magnetometer::send_write(run, reg, value).select(Bank::Bank0), 0);
}

/// Every mode of the magnetometer has a code of its own: none, one measurement, and from
/// then on the faster the higher.
pub proof fn modes_rise_with_their_rates(mode: MagMode)
    ensures
        mode is PowerDown <==> mode.code() == 0x00,
        mode is Single <==> mode.code() == 0x01,
        mode is Continuous10Hz <==> mode.code() == 0x02,
        mode is Continuous20Hz <==> mode.code() == 0x04,
        mode is Continuous50Hz <==> mode.code() == 0x06,
        mode is Continuous100Hz <==> mode.code() == 0x08,
{
}

/// Without blocking, a register of the magnetometer is written with slave 4 in ten
/// milliseconds, and nothing else is touched.
pub proof fn nonblocking_write_is_a_transfer<E>(run: Run<E>, reg: u8, value: u8)
    ensures
        ({
            let done = nonblocking::write_mag(run, reg, value);
            &&& effects::goes_through(run, done)
            &&& effects::only(
                run,
                done,
                set![
                    Register::I2cSlv4Addr,
                    Register::I2cSlv4Reg,
                    Register::I2cSlv4Do,
                    Register::I2cSlv4Ctrl,
                ],
            )
            &&& done.m.world == run.m.world
            &&& run.m.kept(done.m)
            &&& forall|other: Register|
                #[trigger] effects::reads(done.m.trace, other) == effects::reads(
                    run.m.trace,
                    other,
                )
            &&& done.ok() ==> {
                &&& run.ok()
                &&& effects::set_to(run, done, Register::I2cSlv4Addr, 0x0C)
                &&& effects::set_to(run, done, Register::I2cSlv4Reg, reg)
                &&& effects::set_to(run, done, Register::I2cSlv4Do, value)
                &&& effects::set_to(run, done, Register::I2cSlv4Ctrl, 0x80)
                &&& done.paused() == run.paused().push(Pause::Ms(10))
            }
        }),
{
}

/// Without blocking, a register of the magnetometer is read with slave 4: ten milliseconds
/// after the transfer was asked for, what slave 4 is read to have brought is the answer.
pub proof fn nonblocking_read_is_a_transfer<E>(run: Run<E>, reg: u8)
    ensures
        ({
            let (done, answer) = nonblocking::read_mag(run, reg);
            let times = effects::waits(done.m.trace, Register::I2cSlv4Di);
            &&& effects::goes_through(run, done)
            &&& effects::only(
                run,
                done,
                set![Register::I2cSlv4Addr, Register::I2cSlv4Reg, Register::I2cSlv4Ctrl],
            )
            &&& done.m.world == run.m.world
            &&& run.m.kept(done.m)
            &&& done.ok() ==> {
                &&& run.ok()
                &&& effects::set_to(run, done, Register::I2cSlv4Addr, 0x8C)
                &&& effects::set_to(run, done, Register::I2cSlv4Reg, reg)
                &&& effects::set_to(run, done, Register::I2cSlv4Ctrl, 0x80)
                &&& answer == done.saw_last(Register::I2cSlv4Di)
                &&& done.saw(Register::I2cSlv4Di).len() == run.saw(Register::I2cSlv4Di).len() + 1
                &&& times.last() == run.paused().push(Pause::Ms(10))
                &&& done.paused() == run.paused().push(Pause::Ms(10))
            }
        }),
{
    lemma_numbers();
}

/// Without blocking, the magnetometer is asked once who it is. On a bus that works it is set
/// up if and only if the answer is right; otherwise the call fails with the error for the
/// magnetometer. Once it is set up, the I2C master is on, slave 0 reads eight bytes from the
/// first data register on, and the magnetometer was last told the mode that was asked for.
#[verifier::spinoff_prover]
#[verifier::rlimit(60)]
pub proof fn nonblocking_set_up_sets_up<E>(run: Run<E>, mode: MagMode)
    ensures
        ({
            let done = nonblocking::set_up(run, mode);
            let answer = done.saw_last(Register::I2cSlv4Di);
            &&& effects::only(
                run,
                done,
                set![
                    Register::UserCtrl,
                    Register::I2cMstCtrl,
                    Register::I2cSlv4Addr,
                    Register::I2cSlv4Reg,
                    Register::I2cSlv4Do,
                    Register::I2cSlv4Ctrl,
                    Register::I2cSlv0Addr,
                    Register::I2cSlv0Reg,
                    Register::I2cSlv0Ctrl,
                ],
            )
            &&& !done.ok() ==> run.m.kept(done.m)
            &&& run.ok() && run.works() ==> {
                &&& done.saw(Register::I2cSlv4Di).len() == run.saw(Register::I2cSlv4Di).len() + 1
                &&& done.ok() <==> answer == 0x09
                &&& answer != 0x09 ==> done.failed == Some(Error::<E>::Magnetometer)
            }
            &&& done.ok() ==> {
                &&& answer == 0x09
                &&& effects::rewrote(run, done, Register::UserCtrl, 0x20, 0x20)
                &&& effects::rewrote(run, done, Register::I2cMstCtrl, 0x0F, 0x07)
                &&& done.paused() == run.paused() + tens(8)
                &&& effects::set_to(run, done, Register::I2cSlv0Addr, 0x8C)
                &&& effects::set_to(run, done, Register::I2cSlv0Reg, 0x11)
                &&& effects::set_to(run, done, Register::I2cSlv0Ctrl, 0x88)
                &&& done.wrote(Register::I2cSlv4Addr).last() == 0x0C
                &&& done.wrote(Register::I2cSlv4Reg).last() == 0x31
                &&& done.wrote(Register::I2cSlv4Do) == run.wrote(Register::I2cSlv4Do).push(
                    0x01,
                ).push(mode.code())
                &&& done.state().mag_initialized
                &&& run.m.kept(
                    (Model {
                        state: State {
                            mag_initialized: run.state().mag_initialized,
                            ..done.state()
                        },
                        ..done.m
                    }),
                )
            }
        }),
{
    lemma_numbers();
    let done = nonblocking::set_up(run, mode);
    let a = run.select(Bank::Bank0);
    let b = a.modify(Register::UserCtrl, I2C_MST_EN, I2C_MST_EN).ms(10).select(Bank::Bank3);
    let c = b.modify(Register::I2cMstCtrl, I2C_MST_CLK, 0x07).ms(10);
    if done.ok() {
        effects::lemma_rewrote(a, Register::UserCtrl, I2C_MST_EN, I2C_MST_EN);
        effects::lemma_rewrote(b, Register::I2cMstCtrl, I2C_MST_CLK, 0x07);
        assert(done.paused() =~= run.paused() + tens(8));
    }
}

/// The registers that setting the magnetometer up for the motion processor writes.
pub open spec fn processor_registers() -> Set<Register> {
    transfer_registers().union(
        set![
            Register::UserCtrl,
            Register::I2cMstCtrl,
            Register::I2cMstOdrConfig,
            Register::I2cSlv0Addr,
            Register::I2cSlv0Reg,
            Register::I2cSlv0Ctrl,
            Register::I2cSlv1Addr,
            Register::I2cSlv1Reg,
            Register::I2cSlv1Do,
            Register::I2cSlv1Ctrl,
        ],
    )
}

/// Once the magnetometer is set up for the motion processor, it had given the right answer;
/// the I2C master is on; slave 0 reads ten bytes from the reserved register on, with bytes
/// swapped and grouped; slave 1 starts one measurement at a time; the rate is set; and the
/// magnetometer was reset. Nothing else was touched.
#[verifier::spinoff_prover]
#[verifier::rlimit(60)]
pub proof fn processor_set_up_sets_up<E>(run: Run<E>)
    ensures
        ({
            let done = magnetometer::set_up_for_dmp(run);
            let u = done.wrote(Register::UserCtrl);
            let n = run.wrote(Register::UserCtrl).len() as int;
            &&& effects::only(run, done, processor_registers())
            &&& done.m.world == run.m.world
            &&& done.ok() ==> {
                &&& done.saw_last(Register::I2cSlv4Di) == 0x09
                &&& effects::rewrote(run, done, Register::UserCtrl, 0x20, 0x20)
                &&& effects::set_to(run, done, Register::I2cMstCtrl, 0x07)
                &&& effects::set_to(run, done, Register::I2cSlv0Addr, 0x8C)
                &&& effects::set_to(run, done, Register::I2cSlv0Reg, 0x03)
                &&& effects::set_to(run, done, Register::I2cSlv0Ctrl, 0xDA)
                &&& effects::set_to(run, done, Register::I2cSlv1Addr, 0x0C)
                &&& effects::set_to(run, done, Register::I2cSlv1Reg, 0x31)
                &&& effects::set_to(run, done, Register::I2cSlv1Do, 0x01)
                &&& effects::set_to(run, done, Register::I2cSlv1Ctrl, 0x81)
                &&& effects::set_to(run, done, Register::I2cMstOdrConfig, 0x04)
                &&& done.wrote(Register::I2cSlv4Reg).last() == 0x32
                &&& done.wrote(Register::I2cSlv4Do).last() == 0x01
                &&& done.wrote(Register::LpConfig).last() & 0x40 == 0x40
                &&& done.paused() == run.paused().push(Pause::Ms(10)) + milliseconds(
                    (done.saw(Register::I2cMstStatus).len() - run.saw(
                        Register::I2cMstStatus,
                    ).len() - 2) as nat,
                ) + seq![Pause::Ms(100), Pause::Ms(50)]
                &&& done.state().mag_initialized
                &&& run.m.kept(
                    (Model {
                        state: State {
                            mag_initialized: run.state().mag_initialized,
                            ..done.state()
                        },
                        ..done.m
                    }),
                )
            }
            &&& !done.ok() ==> run.m.kept(done.m)
            &&& run.ok() && run.works() && done.saw(Register::I2cSlv4Di).len() > run.saw(
                Register::I2cSlv4Di,
            ).len() && done.saw_last(Register::I2cSlv4Di) != 0x09 ==> {
                &&& u.len() == n + 2
                &&& u[n + 1] & 0x20 == 0
            }
            &&& run.ok() && run.works() && !done.ok() ==> done.failed == Some(
                Error::<E>::Magnetometer,
            )
        }),
{
    lemma_numbers();
    assert(!0x20u8 == 0xDFu8 && !0x40u8 == 0xBFu8) by (bit_vector);
    let done = magnetometer::set_up_for_dmp(run);
    let selected = run.select(Bank::Bank0);
    let on = selected.modify(Register::UserCtrl, I2C_MST_EN, I2C_MST_EN).ms(10).select(
        Bank::Bank3,
    ).put(Register::I2cMstCtrl, 0x07);
    if selected.modify(Register::UserCtrl, I2C_MST_EN, I2C_MST_EN).ok() {
        effects::lemma_rewrote(selected, Register::UserCtrl, I2C_MST_EN, I2C_MST_EN);
    }
    reveal(magnetometer::set_slaves_for_dmp);
    let asking = on.select(Bank::Bank3).put(
        Register::I2cSlv4Addr,
        AK09916_I2C_ADDRESS | I2C_SLV_RNW,
    ).put(Register::I2cSlv4Reg, magnetometer::AK09916_REG_WIA2).put(
        Register::I2cSlv4Ctrl,
        I2C_SLV_EN,
    );
    lemma_poll(asking.select(Bank::Bank0), 0);
    let (asked, answer) = magnetometer::ask_once(on);
    if answer != magnetometer::AK09916_WIA2_VALUE {
        if asked.select(Bank::Bank0).modify(Register::UserCtrl, I2C_MST_EN, 0).ok() {
            effects::lemma_rewrote(asked.select(Bank::Bank0), Register::UserCtrl, I2C_MST_EN, 0);
        }
    } else {
        let sent = magnetometer::write_mag(asked, magnetometer::AK09916_REG_CNTL3, 0x01);
        magnetometer_write_is_a_transfer(asked, magnetometer::AK09916_REG_CNTL3, 0x01);
        lemma_write_sees_no_answer(asked, magnetometer::AK09916_REG_CNTL3, 0x01);
        let routed = magnetometer::set_slaves_for_dmp(sent.ms(100)).select(Bank::Bank0);
        if done.ok() {
            effects::lemma_rewrote(routed, Register::LpConfig, I2C_MST_CYCLE, I2C_MST_CYCLE);
            assert(done.paused() =~= run.paused().push(Pause::Ms(10)) + milliseconds(
                (done.saw(Register::I2cMstStatus).len() - run.saw(Register::I2cMstStatus).len()
                    - 2) as nat,
            ) + seq![Pause::Ms(100), Pause::Ms(50)]);
        }
    }
}

/// The same holds without blocking. On a bus that works it succeeds if and only if the
/// answer is right; otherwise the I2C master is off again and the call fails with the error
/// for the magnetometer.
#[verifier::spinoff_prover]
#[verifier::rlimit(60)]
pub proof fn nonblocking_processor_set_up_sets_up<E>(run: Run<E>)
    ensures
        ({
            let done = nonblocking::set_up_for_dmp(run);
            let u = done.wrote(Register::UserCtrl);
            let n = run.wrote(Register::UserCtrl).len() as int;
            &&& effects::only(run, done, processor_registers())
            &&& done.m.world == run.m.world
            &&& done.ok() ==> {
                &&& done.saw_last(Register::I2cSlv4Di) == 0x09
                &&& effects::rewrote(run, done, Register::UserCtrl, 0x20, 0x20)
                &&& effects::set_to(run, done, Register::I2cMstCtrl, 0x07)
                &&& effects::set_to(run, done, Register::I2cSlv0Addr, 0x8C)
                &&& effects::set_to(run, done, Register::I2cSlv0Reg, 0x03)
                &&& effects::set_to(run, done, Register::I2cSlv0Ctrl, 0xDA)
                &&& effects::set_to(run, done, Register::I2cSlv1Addr, 0x0C)
                &&& effects::set_to(run, done, Register::I2cSlv1Reg, 0x31)
                &&& effects::set_to(run, done, Register::I2cSlv1Do, 0x01)
                &&& effects::set_to(run, done, Register::I2cSlv1Ctrl, 0x81)
                &&& effects::set_to(run, done, Register::I2cMstOdrConfig, 0x04)
                &&& done.wrote(Register::I2cSlv4Reg).last() == 0x32
                &&& done.wrote(Register::I2cSlv4Do).last() == 0x01
                &&& done.wrote(Register::LpConfig).last() & 0x40 == 0x40
                &&& done.paused() == run.paused() + tens(3) + seq![Pause::Ms(100), Pause::Ms(50)]
                &&& done.state().mag_initialized
                &&& run.m.kept(
                    (Model {
                        state: State {
                            mag_initialized: run.state().mag_initialized,
                            ..done.state()
                        },
                        ..done.m
                    }),
                )
            }
            &&& !done.ok() ==> run.m.kept(done.m)
            &&& run.ok() && run.works() ==> {
                &&& done.ok() <==> done.saw_last(Register::I2cSlv4Di) == 0x09
                &&& !done.ok() ==> {
                    &&& done.failed == Some(Error::<E>::Magnetometer)
                    &&& u.len() == n + 2
                    &&& u[n + 1] & 0x20 == 0
                }
            }
        }),
{
    lemma_numbers();
    assert(!0x20u8 == 0xDFu8 && !0x40u8 == 0xBFu8) by (bit_vector);
    let done = nonblocking::set_up_for_dmp(run);
    let selected = run.select(Bank::Bank0);
    let on = selected.modify(Register::UserCtrl, I2C_MST_EN, I2C_MST_EN).ms(10).select(
        Bank::Bank3,
    ).put(Register::I2cMstCtrl, 0x07);
    if selected.modify(Register::UserCtrl, I2C_MST_EN, I2C_MST_EN).ok() {
        effects::lemma_rewrote(selected, Register::UserCtrl, I2C_MST_EN, I2C_MST_EN);
    }
    reveal(magnetometer::set_slaves_for_dmp);
    let (asked, answer) = nonblocking::read_mag(on, magnetometer::AK09916_REG_WIA2);
    nonblocking_read_is_a_transfer(on, magnetometer::AK09916_REG_WIA2);
    if answer != magnetometer::AK09916_WIA2_VALUE {
        if asked.select(Bank::Bank0).modify(Register::UserCtrl, I2C_MST_EN, 0).ok() {
            effects::lemma_rewrote(asked.select(Bank::Bank0), Register::UserCtrl, I2C_MST_EN, 0);
        }
    } else {
        let sent = nonblocking::write_mag(asked, magnetometer::AK09916_REG_CNTL3, 0x01);
        nonblocking_write_is_a_transfer(asked, magnetometer::AK09916_REG_CNTL3, 0x01);
        let routed = magnetometer::set_slaves_for_dmp(sent.ms(100)).select(Bank::Bank0);
        if done.ok() {
            effects::lemma_rewrote(routed, Register::LpConfig, I2C_MST_CYCLE, I2C_MST_CYCLE);
            assert(done.paused() =~= run.paused() + tens(3) + seq![Pause::Ms(100), Pause::Ms(50)]);
        }
    }
}

proof fn lemma_poll_frame<E>(run: Run<E>, retries: int, at: Register, other: Register)
    requires
        at != Register::I2cMstStatus,
    ensures
        effects::moments(magnetometer::poll_done(run, retries).m.trace, at, other)
            == effects::moments(run.m.trace, at, other),
        effects::reads(magnetometer::poll_done(run, retries).m.trace, at) == effects::reads(
            run.m.trace,
            at,
        ),
    decreases MAX_RETRIES + 1 - retries,
{
    if run.ok() && retries <= MAX_RETRIES {
        lemma_poll_frame(run.get(Register::I2cMstStatus).ms(1), retries + 1, at, other);
    }
}

/// Writing a register of the magnetometer reads nothing but the status and `LP_CONFIG`.
proof fn lemma_write_frame<E>(run: Run<E>, reg: u8, value: u8, at: Register, other: Register)
    requires
        at != Register::I2cMstStatus,
        at != Register::LpConfig,
    ensures
        effects::moments(magnetometer::write_mag(run, reg, value).m.trace, at, other)
            == effects::moments(run.m.trace, at, other),
        effects::reads(magnetometer::write_mag(run, reg, value).m.trace, at) == effects::reads(
            run.m.trace,
            at,
        ),
{
    reveal(magnetometer::write_mag);
    lemma_poll_frame(
        magnetometer::send_write(run, reg, value).select(Bank::Bank0),
        0,
        at,
        other,
    );
}

/// The first byte of slave 0 is read with what was written to slave 4 before.
proof fn lemma_measure_moments<E>(run: Run<E>, len: nat, first: int)
    requires
        8 <= len <= 9,
        magnetometer::measure(run, len, first).0.ok(),
    ensures
        effects::moments(
            magnetometer::measure(run, len, first).0.m.trace,
            Register::ExtSlvSensData00,
            Register::I2cSlv4Do,
        ).last() == run.wrote(Register::I2cSlv4Do),
{
    let selected = run.select(Bank::Bank0);
    let empty: Seq<u8> = Seq::empty();
    let read = selected.get(Register::ExtSlvSensData00);
    let one = empty.push(selected.next_byte());
    lemma_slave_bytes(selected, empty, len);
    assert(magnetometer::slave_bytes(selected, empty, len) == magnetometer::slave_bytes(
        read,
        one,
        len,
    )) by {
        reveal_with_fuel(magnetometer::slave_bytes, 2);
    }
    lemma_slave_moments(read, one, len);
    lemma_slave_bytes(read, one, len);
}

proof fn lemma_slave_moments<E>(run: Run<E>, bytes: Seq<u8>, to: nat)
    requires
        bytes.len() > 0,
    ensures
        effects::moments(
            magnetometer::slave_bytes(run, bytes, to).0.m.trace,
            Register::ExtSlvSensData00,
            Register::I2cSlv4Do,
        ) == effects::moments(run.m.trace, Register::ExtSlvSensData00, Register::I2cSlv4Do),
    decreases to - bytes.len(),
{
    if run.ok() && bytes.len() < to {
        lemma_slave_moments(
            run.get(magnetometer::spec_slave_register(bytes.len() as int)),
            bytes.push(run.next_byte()),
            to,
        );
    }
}

/// The pauses of a self-test: those of the transfer that turns it on, a hundred
/// milliseconds for the measurement, ten for slave 0, those of the transfer that turns it
/// off, and ten.
pub open spec fn self_test_pauses(paused: Seq<Pause>, before: nat, after: nat) -> Seq<Pause> {
    (paused + milliseconds(before) + seq![Pause::Ms(100), Pause::Ms(10)] + milliseconds(
        after,
    )).push(Pause::Ms(10))
}

/// The self-test of the magnetometer turns its self-test mode on, lets slave 0 begin with
/// the data, takes one reading while the mode is on, and then lets the magnetometer measure a
/// hundred times a second. Nothing else is touched.
#[verifier::spinoff_prover]
#[verifier::rlimit(60)]
pub proof fn magnetometer_self_test_measures_once<E>(run: Run<E>)
    ensures
        ({
            let (done, data) = magnetometer::self_test(run);
            let modes = effects::moments(
                done.m.trace,
                Register::ExtSlvSensData00,
                Register::I2cSlv4Do,
            );
            &&& effects::only(run, done, transfer_registers().insert(Register::I2cSlv0Reg))
            &&& run.m.kept(done.m)
            &&& done.ok() ==> {
                &&& run.state().mag_initialized
                &&& read_once(run, done)
                &&& data.x == readings::word(
                    done.saw_last(Register::ExtSlvSensData02),
                    done.saw_last(Register::ExtSlvSensData01),
                )
                &&& data.y == readings::word(
                    done.saw_last(Register::ExtSlvSensData04),
                    done.saw_last(Register::ExtSlvSensData03),
                )
                &&& data.z == readings::word(
                    done.saw_last(Register::ExtSlvSensData06),
                    done.saw_last(Register::ExtSlvSensData05),
                )
                &&& modes.last().last() == 0x10
                &&& done.wrote(Register::I2cSlv4Reg) == run.wrote(Register::I2cSlv4Reg).push(
                    0x31,
                ).push(0x31)
                &&& done.wrote(Register::I2cSlv4Do) == run.wrote(Register::I2cSlv4Do).push(
                    0x10,
                ).push(0x08)
                &&& effects::set_to(run, done, Register::I2cSlv0Reg, 0x11)
                &&& exists|before: nat, after: nat|
                    #[trigger] self_test_pauses(run.paused(), before, after) == done.paused()
            }
        }),
{
    lemma_numbers();
    let sent = magnetometer::write_mag(run, magnetometer::AK09916_REG_CNTL2, 0x10);
    magnetometer_write_is_a_transfer(run, magnetometer::AK09916_REG_CNTL2, 0x10);
    let pointed = sent.ms(100).select(Bank::Bank3).put(
        Register::I2cSlv0Reg,
        magnetometer::AK09916_REG_HXL,
    ).ms(10);
    let (measured, data) = magnetometer::measure(pointed, 8, 1);
    magnetometer_reading_is_six_bytes(pointed, 8, 1);
    if measured.ok() {
        lemma_measure_moments(pointed, 8, 1);
    }
    magnetometer_write_is_a_transfer(measured, magnetometer::AK09916_REG_CNTL2, 0x08);
    lemma_write_frame(
        run,
        magnetometer::AK09916_REG_CNTL2,
        0x10,
        Register::ExtSlvSensData00,
        Register::I2cSlv4Do,
    );
    lemma_write_frame(
        run,
        magnetometer::AK09916_REG_CNTL2,
        0x10,
        Register::ExtSlvSensData01,
        Register::I2cSlv4Do,
    );
    lemma_write_frame(
        run,
        magnetometer::AK09916_REG_CNTL2,
        0x10,
        Register::ExtSlvSensData02,
        Register::I2cSlv4Do,
    );
    lemma_write_frame(
        run,
        magnetometer::AK09916_REG_CNTL2,
        0x10,
        Register::ExtSlvSensData03,
        Register::I2cSlv4Do,
    );
    lemma_write_frame(
        run,
        magnetometer::AK09916_REG_CNTL2,
        0x10,
        Register::ExtSlvSensData04,
        Register::I2cSlv4Do,
    );
    lemma_write_frame(
        run,
        magnetometer::AK09916_REG_CNTL2,
        0x10,
        Register::ExtSlvSensData05,
        Register::I2cSlv4Do,
    );
    lemma_write_frame(
        run,
        magnetometer::AK09916_REG_CNTL2,
        0x10,
        Register::ExtSlvSensData06,
        Register::I2cSlv4Do,
    );
    lemma_write_frame(
        run,
        magnetometer::AK09916_REG_CNTL2,
        0x10,
        Register::ExtSlvSensData07,
        Register::I2cSlv4Do,
    );
    lemma_write_frame(
        measured,
        magnetometer::AK09916_REG_CNTL2,
        0x08,
        Register::ExtSlvSensData00,
        Register::I2cSlv4Do,
    );
    lemma_write_frame(
        measured,
        magnetometer::AK09916_REG_CNTL2,
        0x08,
        Register::ExtSlvSensData01,
        Register::I2cSlv4Do,
    );
    lemma_write_frame(
        measured,
        magnetometer::AK09916_REG_CNTL2,
        0x08,
        Register::ExtSlvSensData02,
        Register::I2cSlv4Do,
    );
    lemma_write_frame(
        measured,
        magnetometer::AK09916_REG_CNTL2,
        0x08,
        Register::ExtSlvSensData03,
        Register::I2cSlv4Do,
    );
    lemma_write_frame(
        measured,
        magnetometer::AK09916_REG_CNTL2,
        0x08,
        Register::ExtSlvSensData04,
        Register::I2cSlv4Do,
    );
    lemma_write_frame(
        measured,
        magnetometer::AK09916_REG_CNTL2,
        0x08,
        Register::ExtSlvSensData05,
        Register::I2cSlv4Do,
    );
    lemma_write_frame(
        measured,
        magnetometer::AK09916_REG_CNTL2,
        0x08,
        Register::ExtSlvSensData06,
        Register::I2cSlv4Do,
    );
    lemma_write_frame(
        measured,
        magnetometer::AK09916_REG_CNTL2,
        0x08,
        Register::ExtSlvSensData07,
        Register::I2cSlv4Do,
    );
    let done = magnetometer::self_test(run).0;
    if done.ok() {
        let before = (sent.saw(Register::I2cMstStatus).len() - run.saw(
            Register::I2cMstStatus,
        ).len() - 1) as nat;
        let after = (done.saw(Register::I2cMstStatus).len() - measured.saw(
            Register::I2cMstStatus,
        ).len() - 1) as nat;
        assert(self_test_pauses(run.paused(), before, after) =~= done.paused());
    }
}

/// The same holds without blocking, and the pauses are those that the magnetometer needs.
#[verifier::spinoff_prover]
#[verifier::rlimit(60)]
pub proof fn nonblocking_self_test_measures_once<E>(run: Run<E>)
    ensures
        ({
            let (done, data) = nonblocking::self_test(run);
            let modes = effects::moments(
                done.m.trace,
                Register::ExtSlvSensData00,
                Register::I2cSlv4Do,
            );
            &&& effects::only(run, done, set![
                    Register::I2cSlv4Addr,
                    Register::I2cSlv4Reg,
                    Register::I2cSlv4Do,
                    Register::I2cSlv4Ctrl,
                    Register::I2cSlv0Reg,
                ])
            &&& run.m.kept(done.m)
            &&& done.ok() ==> {
                &&& run.state().mag_initialized
                &&& read_once(run, done)
                &&& data.x == readings::word(
                    done.saw_last(Register::ExtSlvSensData02),
                    done.saw_last(Register::ExtSlvSensData01),
                )
                &&& data.y == readings::word(
                    done.saw_last(Register::ExtSlvSensData04),
                    done.saw_last(Register::ExtSlvSensData03),
                )
                &&& data.z == readings::word(
                    done.saw_last(Register::ExtSlvSensData06),
                    done.saw_last(Register::ExtSlvSensData05),
                )
                &&& modes.last().last() == 0x10
                &&& done.wrote(Register::I2cSlv4Reg) == run.wrote(Register::I2cSlv4Reg).push(
                    0x31,
                ).push(0x31)
                &&& done.wrote(Register::I2cSlv4Do) == run.wrote(Register::I2cSlv4Do).push(
                    0x10,
                ).push(0x08)
                &&& effects::set_to(run, done, Register::I2cSlv0Reg, 0x11)
                &&& done.paused() == run.paused().push(Pause::Ms(10)).push(Pause::Ms(100)).push(
                    Pause::Ms(10),
                ).push(Pause::Ms(10)).push(Pause::Ms(10))
            }
        }),
{
    lemma_numbers();
    let sent = nonblocking::write_mag(run, magnetometer::AK09916_REG_CNTL2, 0x10);
    nonblocking_write_is_a_transfer(run, magnetometer::AK09916_REG_CNTL2, 0x10);
    let pointed = sent.ms(100).select(Bank::Bank3).put(
        Register::I2cSlv0Reg,
        magnetometer::AK09916_REG_HXL,
    ).ms(10);
    let (measured, data) = magnetometer::measure(pointed, 8, 1);
    magnetometer_reading_is_six_bytes(pointed, 8, 1);
    if measured.ok() {
        lemma_measure_moments(pointed, 8, 1);
    }
    nonblocking_write_is_a_transfer(measured, magnetometer::AK09916_REG_CNTL2, 0x08);
}

/// So many pauses of ten milliseconds.
pub open spec fn tens(count: nat) -> Seq<Pause> {
    Seq::new(count, |i: int| Pause::Ms(10))
}

/// How often a register was read before.
pub open spec fn at<E>(before: Run<E>, register: Register) -> int {
    before.saw(register).len() as int
}

/// A register was read so many times more, and what was read before is still known.
pub open spec fn grows<E>(before: Run<E>, after: Run<E>, register: Register, times: int) -> bool {
    &&& after.saw(register).len() == before.saw(register).len() + times
    &&& forall|i: int|
        0 <= i < before.saw(register).len() ==> #[trigger] after.saw(register)[i] == before.saw(
            register,
        )[i]
}

/// A reading is the one that the bytes of slave 0 made up at the reading number `i` after
/// `before`, with the calibration that the driver remembers.
pub open spec fn is_reading_number<E>(item: MagReading, before: Run<E>, after: Run<E>, i: int) -> bool {
    &&& item.calibration == before.state().mag_calibration
    &&& item.x == readings::word(
        after.saw(Register::ExtSlvSensData02)[at(before, Register::ExtSlvSensData02) + i][0],
        after.saw(Register::ExtSlvSensData01)[at(before, Register::ExtSlvSensData01) + i][0],
    )
    &&& item.y == readings::word(
        after.saw(Register::ExtSlvSensData04)[at(before, Register::ExtSlvSensData04) + i][0],
        after.saw(Register::ExtSlvSensData03)[at(before, Register::ExtSlvSensData03) + i][0],
    )
    &&& item.z == readings::word(
        after.saw(Register::ExtSlvSensData06)[at(before, Register::ExtSlvSensData06) + i][0],
        after.saw(Register::ExtSlvSensData05)[at(before, Register::ExtSlvSensData05) + i][0],
    )
}

proof fn lemma_samples_are_readings<E>(run: Run<E>, data: Seq<MagReading>, count: nat)
    requires
        data.len() <= count,
    ensures
        ({
            let (done, all) = magnetometer::sample(run, data, count);
            &&& effects::only(run, done, set![])
            &&& run.m.kept(done.m)
            &&& done.ok() ==> run.ok()
            &&& done.ok() ==> {
                &&& all.len() == count
                &&& forall|i: int| 0 <= i < data.len() ==> #[trigger] all[i] == data[i]
                &&& forall|i: int|
                    data.len() <= i < count ==> is_reading_number(#[trigger] all[i], run, done, i - data.len())
                &&& done.paused() == run.paused() + tens((count - data.len()) as nat)
                &&& grows(run, done, Register::ExtSlvSensData01, count - data.len())
                &&& grows(run, done, Register::ExtSlvSensData02, count - data.len())
                &&& grows(run, done, Register::ExtSlvSensData03, count - data.len())
                &&& grows(run, done, Register::ExtSlvSensData04, count - data.len())
                &&& grows(run, done, Register::ExtSlvSensData05, count - data.len())
                &&& grows(run, done, Register::ExtSlvSensData06, count - data.len())
            }
        }),
    decreases count - data.len(),
{
    if run.ok() && data.len() < count {
        let (measured, reading) = magnetometer::measure(run, 9, 1);
        magnetometer_reading_is_six_bytes(run, 9, 1);
        let item = magnetometer::calibrated(reading, run.state());
        let then = measured.ms(10);
        lemma_samples_are_readings(then, data.push(item), count);
        let (done, all) = magnetometer::sample(run, data, count);
        if done.ok() {
            let left = (count - data.len() - 1) as nat;
            assert(run.paused().push(Pause::Ms(10)) + tens(left) =~= run.paused() + tens(
                left + 1,
            ));
            assert(all[data.len() as int] == data.push(item)[data.len() as int]);
            assert forall|i: int| data.len() <= i < count implies is_reading_number(
                #[trigger] all[i],
                run,
                done,
                i - data.len(),
            ) by {
                if i > data.len() {
                    assert(is_reading_number(all[i], then, done, i - data.len() - 1));
                }
            }
        }
    } else {
        assert(run.paused() + tens(0) =~= run.paused());
    }
}

/// As many readings are taken as were asked for, in order and ten milliseconds apart, and
/// none is left out. Nothing is written.
pub proof fn samples_are_readings<E>(run: Run<E>, count: nat)
    ensures
        ({
            let (done, all) = magnetometer::sample(run, Seq::empty(), count);
            &&& effects::only(run, done, set![])
            &&& run.m.kept(done.m)
            &&& done.ok() ==> {
                &&& all.len() == count
                &&& forall|i: int| 0 <= i < count ==> is_reading_number(#[trigger] all[i], run, done, i)
                &&& done.paused() == run.paused() + tens(count)
            }
        }),
{
    lemma_samples_are_readings(run, Seq::empty(), count);
    let (done, all) = magnetometer::sample(run, Seq::empty(), count);
    if done.ok() {
        assert forall|i: int| 0 <= i < count implies is_reading_number(#[trigger] all[i], run, done, i) by {
            assert(is_reading_number(all[i], run, done, i - 0));
        }
    }
}

/// A reading is the one that the bytes of slave 0 made up at the reading number `i` after
/// `before`, with the calibration that the driver remembers.
pub open spec fn is_nonblocking_reading_number<E>(item: MagReading, before: Run<E>, after: Run<E>, i: int) -> bool {
    &&& item.calibration == before.state().mag_calibration
    &&& item.x == readings::word(
        after.saw(Register::ExtSlvSensData01)[at(before, Register::ExtSlvSensData01) + i][0],
        after.saw(Register::ExtSlvSensData00)[at(before, Register::ExtSlvSensData00) + i][0],
    )
    &&& item.y == readings::word(
        after.saw(Register::ExtSlvSensData03)[at(before, Register::ExtSlvSensData03) + i][0],
        after.saw(Register::ExtSlvSensData02)[at(before, Register::ExtSlvSensData02) + i][0],
    )
    &&& item.z == readings::word(
        after.saw(Register::ExtSlvSensData05)[at(before, Register::ExtSlvSensData05) + i][0],
        after.saw(Register::ExtSlvSensData04)[at(before, Register::ExtSlvSensData04) + i][0],
    )
}

proof fn lemma_nonblocking_samples_are_readings<E>(run: Run<E>, data: Seq<MagReading>, count: nat)
    requires
        data.len() <= count,
    ensures
        ({
            let (done, all) = nonblocking::sample(run, data, count);
            &&& effects::only(run, done, set![])
            &&& run.m.kept(done.m)
            &&& done.ok() ==> run.ok()
            &&& done.ok() ==> {
                &&& all.len() == count
                &&& forall|i: int| 0 <= i < data.len() ==> #[trigger] all[i] == data[i]
                &&& forall|i: int|
                    data.len() <= i < count ==> is_nonblocking_reading_number(#[trigger] all[i], run, done, i - data.len())
                &&& done.paused() == run.paused() + tens((count - data.len()) as nat)
                &&& grows(run, done, Register::ExtSlvSensData00, count - data.len())
                &&& grows(run, done, Register::ExtSlvSensData01, count - data.len())
                &&& grows(run, done, Register::ExtSlvSensData02, count - data.len())
                &&& grows(run, done, Register::ExtSlvSensData03, count - data.len())
                &&& grows(run, done, Register::ExtSlvSensData04, count - data.len())
                &&& grows(run, done, Register::ExtSlvSensData05, count - data.len())
            }
        }),
    decreases count - data.len(),
{
    if run.ok() && data.len() < count {
        let (measured, reading) = magnetometer::measure(run, 8, 0);
        magnetometer_reading_is_six_bytes(run, 8, 0);
        let item = magnetometer::calibrated(reading, run.state());
        let then = measured.ms(10);
        lemma_nonblocking_samples_are_readings(then, data.push(item), count);
        let (done, all) = nonblocking::sample(run, data, count);
        if done.ok() {
            let left = (count - data.len() - 1) as nat;
            assert(run.paused().push(Pause::Ms(10)) + tens(left) =~= run.paused() + tens(
                left + 1,
            ));
            assert(all[data.len() as int] == data.push(item)[data.len() as int]);
            assert forall|i: int| data.len() <= i < count implies is_nonblocking_reading_number(
                #[trigger] all[i],
                run,
                done,
                i - data.len(),
            ) by {
                if i > data.len() {
                    assert(is_nonblocking_reading_number(all[i], then, done, i - data.len() - 1));
                }
            }
        }
    } else {
        assert(run.paused() + tens(0) =~= run.paused());
    }
}

/// The same holds without blocking, from the first byte of slave 0 on.
pub proof fn nonblocking_samples_are_readings<E>(run: Run<E>, count: nat)
    ensures
        ({
            let (done, all) = nonblocking::sample(run, Seq::empty(), count);
            &&& effects::only(run, done, set![])
            &&& run.m.kept(done.m)
            &&& done.ok() ==> {
                &&& all.len() == count
                &&& forall|i: int| 0 <= i < count ==> is_nonblocking_reading_number(#[trigger] all[i], run, done, i)
                &&& done.paused() == run.paused() + tens(count)
            }
        }),
{
    lemma_nonblocking_samples_are_readings(run, Seq::empty(), count);
    let (done, all) = nonblocking::sample(run, Seq::empty(), count);
    if done.ok() {
        assert forall|i: int| 0 <= i < count implies is_nonblocking_reading_number(#[trigger] all[i], run, done, i) by {
            assert(is_nonblocking_reading_number(all[i], run, done, i - 0));
        }
    }
}

} // verus!
