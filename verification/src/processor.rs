//! Laws on the motion processor: what its memory holds after an operation, what the chip is
//! set to for it, and what comes out of the FIFO.

use vstd::prelude::*;

use crate::chip;
use crate::chip::Memory;
use crate::device;
use crate::dmp;
use crate::dmp::{DmpData, DmpWrite};
use crate::effects;
use crate::fifo;
use crate::interface::Pause;
use crate::nonblocking;
use crate::registers::{
    Register, ACCEL_CYCLE, ACCEL_FCHOICE, CLKSEL, DMP_EN, DMP_INT1_EN, DMP_RST, FIFO_EN,
    GYRO_CYCLE, GYRO_FCHOICE, I2C_MST_CYCLE, I2C_MST_EN, LP_EN, SLEEP,
};
use crate::script;
use crate::script::Run;
use crate::{Bank, Error};

verus! {

broadcast use {crate::effects::group_effects, crate::chip::group_cells};

/// From `before` to `after`, only the registers of the processor's memory were written,
/// nothing was waited for, and nothing was read but bytes of the memory.
pub open spec fn stays_in_memory<E>(before: Run<E>, after: Run<E>) -> bool {
    &&& effects::goes_through(before, after)
    &&& effects::only(
        before,
        after,
        set![Register::MemBankSel, Register::MemStartAddr, Register::MemRW],
    )
    &&& forall|other: Register|
        other != Register::MemRW ==> #[trigger] effects::reads(after.m.trace, other)
            == effects::reads(before.m.trace, other)
    &&& after.paused() == before.paused()
    &&& before.m.kept(after.m)
    &&& after.m.world == before.m.world
    &&& after.ok() ==> before.ok()
}

proof fn lemma_push_bytes<E>(run: Run<E>, data: Seq<u8>)
    ensures
        stays_in_memory(run, dmp::push_bytes(run, data)),
    decreases data.len(),
{
    if run.ok() && data.len() > 0 {
        lemma_push_bytes(run.put(Register::MemRW, data[0]), data.skip(1));
    }
}

proof fn lemma_write_chunks<E>(run: Run<E>, address: int, data: Seq<u8>)
    ensures
        stays_in_memory(run, dmp::write_chunks(run, address, data)),
    decreases data.len(),
{
    if run.ok() && data.len() > 0 {
        let n = if data.len() < dmp::CHUNK {
            data.len() as int
        } else {
            dmp::CHUNK as int
        };
        let placed = run.put(Register::MemBankSel, (address / 256) as u8).put(
            Register::MemStartAddr,
            (address % 256) as u8,
        );
        lemma_push_bytes(placed, data.take(n));
        lemma_write_chunks(dmp::push_bytes(placed, data.take(n)), address + n, data.skip(n));
    }
}

/// Writing to the processor's memory touches nothing else, and fails only where the bus
/// does.
pub proof fn memory_writes_stay_in_memory<E>(run: Run<E>, address: u16, data: Seq<u8>)
    ensures
        stays_in_memory(run, dmp::write_memory(run, address, data)),
        stays_in_memory(
            run.select(Bank::Bank0),
            nonblocking::write_memory(run.select(Bank::Bank0), address, data),
        ),
{
    let selected = run.select(Bank::Bank0);
    lemma_write_chunks(selected, address as int, data);
    lemma_push_bytes(
        selected.put(Register::MemBankSel, (address / 256) as u8).put(
            Register::MemStartAddr,
            (address % 256) as u8,
        ),
        data,
    );
}

proof fn lemma_fill<E>(run: Run<E>, register: Register, buffer: Seq<u8>, from: int, to: int)
    ensures
        ({
            let after = script::fill(run, register, buffer, from, to).0;
            &&& effects::goes_through(run, after)
            &&& effects::only(run, after, set![])
            &&& forall|other: Register|
                other != register ==> #[trigger] effects::reads(after.m.trace, other)
                    == effects::reads(run.m.trace, other)
            &&& after.paused() == run.paused()
            &&& after.m.state == run.m.state
            &&& after.m.world == run.m.world
            &&& after.ok() ==> run.ok()
        }),
    decreases to - from,
{
    if run.ok() && from < to {
        let then = run.get(register);
        let stored = if then.ok() {
            buffer.update(from, run.next_byte())
        } else {
            buffer
        };
        lemma_fill(then, register, stored, from + 1, to);
    }
}

/// Reading the processor's memory touches nothing else, and fails only where the bus
/// does.
pub proof fn memory_reads_stay_in_memory<E>(run: Run<E>, address: u16, buffer: Seq<u8>)
    ensures
        stays_in_memory(run, dmp::read_memory(run, address, buffer).0),
{
    let placed = run.select(Bank::Bank0).put(Register::MemBankSel, (address / 256) as u8).put(
        Register::MemStartAddr,
        (address % 256) as u8,
    );
    lemma_fill(placed, Register::MemRW, buffer, 0, buffer.len() as int);
}

/// A number of two bytes lies in the memory, the high byte first.
pub open spec fn stores<E>(memory: Memory, run: Run<E>, address: int, value: int) -> bool {
    let cells = memory.after_all(run.m.trace).cells;
    256 * cells[address] + cells[address + 1] == value
}

/// The memory holds what it did, but at the given addresses and the ones behind them.
pub open spec fn keeps_others<E>(
    memory: Memory,
    before: Run<E>,
    after: Run<E>,
    addresses: Set<int>,
) -> bool {
    forall|a: int|
        !addresses.contains(a) && !addresses.contains(a - 1) ==> #[trigger] memory.after_all(
            after.m.trace,
        ).cells[a] == memory.after_all(before.m.trace).cells[a]
}

proof fn lemma_stores<E>(memory: Memory, run: Run<E>, address: u16, value: u16)
    requires
        dmp::write_memory(run, address, dmp::high_first(value)).ok(),
        address % 256 <= 254,
    ensures
        stores(
            memory,
            dmp::write_memory(run, address, dmp::high_first(value)),
            address as int,
            value as int,
        ),
        forall|a: int|
            a != address && a != address + 1 ==> #[trigger] memory.after_all(
                dmp::write_memory(run, address, dmp::high_first(value)).m.trace,
            ).cells[a] == memory.after_all(run.m.trace).cells[a],
{
    let done = dmp::write_memory(run, address, dmp::high_first(value));
    chip::memory_takes_what_is_written(memory, run, address, dmp::high_first(value));
    let after = memory.after_all(done.m.trace);
    assert(after.holds(memory.after_all(run.m.trace), address as int, dmp::high_first(value)));
    assert(after.cells[address as int] == dmp::high_first(value)[0]);
    assert(after.cells[address + 1] == dmp::high_first(value)[1]);
}

/// The watermark lies at its address in the memory, and nothing else changes.
pub proof fn watermark_is_stored<E>(memory: Memory, run: Run<E>, watermark: u16)
    ensures
        ({
            let done = dmp::set_watermark(run, watermark);
            &&& stays_in_memory(run, done)
            &&& done.ok() ==> stores(memory, done, 0x01FE, watermark as int)
            &&& done.ok() ==> keeps_others(memory, run, done, set![0x01FE])
        }),
{
    memory_writes_stay_in_memory(run, dmp::FIFO_WATERMARK, dmp::high_first(watermark));
    if dmp::set_watermark(run, watermark).ok() {
        lemma_stores(memory, run, dmp::FIFO_WATERMARK, watermark);
    }
}

/// The watermark that is read is the number that the memory holds at its address.
pub proof fn watermark_is_what_is_stored<E>(memory: Memory, run: Run<E>)
    requires
        memory.keeps(dmp::watermark(run).0.m.trace),
    ensures
        stays_in_memory(run, dmp::watermark(run).0),
        dmp::watermark(run).0.ok() ==> stores(memory, run, 0x01FE, dmp::watermark(run).1 as int),
{
    memory_reads_stay_in_memory(run, dmp::FIFO_WATERMARK, seq![0u8, 0u8]);
    if dmp::watermark(run).0.ok() {
        chip::memory_brings_what_is_stored(memory, run, dmp::FIFO_WATERMARK, seq![0u8, 0u8]);
    }
}

/// An output rate of the processor.
pub open spec fn is_rate(odr_register: u16) -> bool {
    ||| odr_register == 0x00A8
    ||| odr_register == 0x00AC
    ||| odr_register == 0x00B4
    ||| odr_register == 0x00B6
    ||| odr_register == 0x00B8
    ||| odr_register == 0x00BA
    ||| odr_register == 0x00BE
}

/// An output rate is set, and its counter, 32 bytes before it, starts at 0 again. Nothing
/// else changes. On a bus that works this succeeds for the seven rates, and for no other
/// address.
pub proof fn rate_is_stored<E>(memory: Memory, run: Run<E>, odr_register: u16, interval: u16)
    ensures
        ({
            let done = dmp::set_odr(run, odr_register, interval);
            &&& effects::only(
                run,
                done,
                set![Register::MemBankSel, Register::MemStartAddr, Register::MemRW],
            )
            &&& done.paused() == run.paused()
            &&& run.m.kept(done.m)
            &&& run.ok() && run.works() ==> (done.ok() <==> is_rate(odr_register))
            &&& run.ok() && run.works() && !is_rate(odr_register) ==> done.failed == Some(
                Error::<E>::InvalidConfig,
            )
            &&& done.ok() ==> {
                &&& is_rate(odr_register)
                &&& stores(memory, done, odr_register as int, interval as int)
                &&& stores(memory, done, odr_register - 0x20, 0)
                &&& keeps_others(
                    memory,
                    run,
                    done,
                    set![odr_register as int, odr_register - 0x20],
                )
            }
        }),
{
    let set = dmp::write_memory(run, odr_register, dmp::high_first(interval));
    memory_writes_stay_in_memory(run, odr_register, dmp::high_first(interval));
    match dmp::spec_odr_counter(odr_register) {
        Some(counter) => {
            assert(seq![0u8, 0u8] =~= dmp::high_first(0));
            memory_writes_stay_in_memory(set, counter, dmp::high_first(0));
            if dmp::set_odr(run, odr_register, interval).ok() {
                lemma_stores(memory, run, odr_register, interval);
                lemma_stores(memory, set, counter, 0);
            }
        },
        None => {},
    }
}

/// The processor is told of each sensor on its own: of the gyroscope with bit 0, of the
/// accelerometer with bit 1 and of the compass with bit 3. Nothing else changes.
pub proof fn sensors_are_announced<E>(
    memory: Memory,
    run: Run<E>,
    accel: bool,
    gyro: bool,
    compass: bool,
)
    ensures
        ({
            let done = dmp::enable_sensors(run, accel, gyro, compass);
            let cells = memory.after_all(done.m.trace).cells;
            &&& stays_in_memory(run, done)
            &&& done.ok() ==> {
                &&& cells[0x008A] == 0
                &&& (cells[0x008B] % 2 == 1) == gyro
                &&& ((cells[0x008B] / 2) % 2 == 1) == accel
                &&& (cells[0x008B] / 4) % 2 == 0
                &&& (cells[0x008B] / 8 == 1) == compass
                &&& cells[0x008B] < 16
                &&& keeps_others(memory, run, done, set![0x008A])
            }
        }),
{
    let value = dmp::ready_bits(accel, gyro, compass);
    memory_writes_stay_in_memory(run, dmp::DATA_RDY_STATUS, dmp::high_first(value));
    if dmp::enable_sensors(run, accel, gyro, compass).ok() {
        lemma_stores(memory, run, dmp::DATA_RDY_STATUS, value);
    }
}

/// The processor is told of each calibration on its own: of the accelerometer, the
/// gyroscope and the compass with bits 0 to 2, and of nine-axis fusion with bit 8. Nothing
/// else changes.
pub proof fn motion_control_is_stored<E>(
    memory: Memory,
    run: Run<E>,
    accel: bool,
    gyro: bool,
    compass: bool,
    nine_axis: bool,
)
    ensures
        ({
            let done = dmp::control_motion(run, accel, gyro, compass, nine_axis);
            let cells = memory.after_all(done.m.trace).cells;
            &&& stays_in_memory(run, done)
            &&& done.ok() ==> {
                &&& (cells[0x004E] == 1) == nine_axis
                &&& cells[0x004E] < 2
                &&& (cells[0x004F] % 2 == 1) == accel
                &&& ((cells[0x004F] / 2) % 2 == 1) == gyro
                &&& (cells[0x004F] / 4 == 1) == compass
                &&& cells[0x004F] < 8
                &&& keeps_others(memory, run, done, set![0x004E])
            }
        }),
{
    let value = dmp::motion_bits(accel, gyro, compass, nine_axis);
    memory_writes_stay_in_memory(run, dmp::MOTION_EVENT_CTL, dmp::high_first(value));
    if dmp::control_motion(run, accel, gyro, compass, nine_axis).ok() {
        lemma_stores(memory, run, dmp::MOTION_EVENT_CTL, value);
    }
}

proof fn lemma_numbers()
    by (bit_vector)
    ensures
        LP_EN | SLEEP | CLKSEL == 0x67u8,
        0x01u8 & 0x67u8 == 0x01u8,
        0x01u8 & 0x01u8 == 0x01u8,
        ACCEL_CYCLE | GYRO_CYCLE == 0x30u8,
        DMP_EN | FIFO_EN | I2C_MST_EN == 0xE0u8,
        DMP_EN | FIFO_EN == 0xC0u8,
        0x00u8 & 0x20u8 == 0x00u8,
        0x00u8 & 0x30u8 == 0x00u8,
        0x00u8 & 0x40u8 == 0x00u8,
        0x00u8 & 0x02u8 == 0x00u8,
        0x02u8 & 0x02u8 == 0x02u8,
        0x40u8 & 0x40u8 == 0x40u8,
        0x20u8 & 0x20u8 == 0x20u8,
        0x08u8 & 0x08u8 == 0x08u8,
        0x1Eu8 & 0x1Eu8 == 0x1Eu8,
        0xC0u8 | 0x20u8 == 0xE0u8,
        0xC0u8 | 0x00u8 == 0xC0u8,
        0x00u8 | 0x00u8 == 0x00u8,
        0xE0u8 & 0xE0u8 == 0xE0u8,
        0xC0u8 & 0xE0u8 == 0xC0u8,
        0x00u8 & 0xE0u8 == 0x00u8,
        I2C_MST_CYCLE | ACCEL_CYCLE | GYRO_CYCLE == 0x70u8,
        0x00u8 & 0x70u8 == 0x00u8,
{
}

/// The chip is set to what the processor works with: awake, out of low power, with the
/// best clock, no duty cycle and every axis on; both sensors at their full rate, through
/// their filters; and the alignment of the output rates and the processor's low-power
/// bit on. Nothing else changes.
pub open spec fn prepared<E>(before: Run<E>, after: Run<E>) -> bool {
    &&& effects::set_to(before, after, Register::GyroSmplrtDiv, 0)
    &&& effects::set_to(before, after, Register::AccelSmplrtDiv1, 0)
    &&& effects::set_to(before, after, Register::AccelSmplrtDiv2, 0)
    &&& effects::set_to(before, after, Register::LpConfig, 0)
    &&& effects::set_to(before, after, Register::PwrMgmt2, 0)
    &&& effects::set_to(before, after, Register::OdrAlignEn, 1)
    &&& effects::set_to(before, after, Register::ModCtrlUsr, 1)
    &&& effects::rewrote(before, after, Register::PwrMgmt1, 0x67, 0x01)
    &&& effects::rewrote(before, after, Register::GyroConfig1, 0x01, 0x01)
    &&& effects::rewrote(before, after, Register::AccelConfig, 0x01, 0x01)
    &&& before.m.kept(after.m)
}

/// The registers that preparing for the processor writes.
pub open spec fn prepared_registers() -> Set<Register> {
    set![
        Register::GyroSmplrtDiv,
        Register::AccelSmplrtDiv1,
        Register::AccelSmplrtDiv2,
        Register::LpConfig,
        Register::PwrMgmt2,
        Register::OdrAlignEn,
        Register::ModCtrlUsr,
        Register::PwrMgmt1,
        Register::GyroConfig1,
        Register::AccelConfig,
    ]
}

/// After preparing for the processor, the chip is prepared, and nothing else changed.
pub proof fn preparing_prepares<E>(run: Run<E>)
    ensures
        ({
            let done = dmp::prepare(run);
            &&& effects::goes_through(run, done)
            &&& done.m.world == run.m.world
            &&& done.ok() ==> {
                &&& prepared(run, done)
                &&& effects::only(run, done, prepared_registers())
                &&& done.paused() == run.paused()
            }
        }),
{
    lemma_numbers();
    let a = run.select(Bank::Bank0);
    let b = a.modify(Register::PwrMgmt1, LP_EN | SLEEP | CLKSEL, 1).put(Register::LpConfig, 0).put(
        Register::PwrMgmt2,
        0,
    ).select(Bank::Bank2);
    let c = b.modify(Register::GyroConfig1, GYRO_FCHOICE, GYRO_FCHOICE).put(
        Register::GyroSmplrtDiv,
        0,
    );
    if dmp::prepare(run).ok() {
        effects::lemma_rewrote(a, Register::PwrMgmt1, LP_EN | SLEEP | CLKSEL, 1);
        effects::lemma_rewrote(b, Register::GyroConfig1, GYRO_FCHOICE, GYRO_FCHOICE);
        effects::lemma_rewrote(c, Register::AccelConfig, ACCEL_FCHOICE, ACCEL_FCHOICE);
    }
}

/// The program starts at 0x1000, and two registers get the values that some chip revisions
/// need.
pub open spec fn finished<E>(before: Run<E>, after: Run<E>) -> bool {
    let high = after.wrote(Register::PrgmStartAddrH).last();
    let low = after.wrote(Register::PrgmStartAddrL).last();
    &&& effects::set_to(before, after, Register::PrgmStartAddrH, high)
    &&& effects::set_to(before, after, Register::PrgmStartAddrL, low)
    &&& 256 * high + low == 0x1000
    &&& effects::set_to(before, after, Register::HwFixDisable, 0x48)
    &&& effects::set_to(before, after, Register::SingleFifoPrioritySel, 0xE4)
}

/// The registers that loading firmware writes.
pub open spec fn firmware_registers() -> Set<Register> {
    set![
        Register::MemBankSel,
        Register::MemStartAddr,
        Register::MemRW,
        Register::PrgmStartAddrH,
        Register::PrgmStartAddrL,
        Register::HwFixDisable,
        Register::SingleFifoPrioritySel,
    ]
}

/// After firmware was loaded, it lies at the beginning of the processor's memory, the
/// program starts where it has to, and nothing else changed.
pub proof fn loading_loads<E>(memory: Memory, run: Run<E>, firmware: Seq<u8>)
    requires
        firmware.len() <= u16::MAX,
    ensures
        ({
            let done = dmp::load_firmware(run, firmware);
            &&& effects::goes_through(run, done)
            &&& done.m.world == run.m.world
            &&& done.ok() ==> {
                &&& finished(run, done)
                &&& effects::only(run, done, firmware_registers())
                &&& done.paused() == run.paused()
                &&& forall|other: Register|
                    other != Register::MemRW ==> #[trigger] effects::reads(done.m.trace, other)
                        == effects::reads(run.m.trace, other)
                &&& run.m.kept(done.m)
                &&& forall|a: int|
                    0 <= a < firmware.len() ==> #[trigger] memory.after_all(done.m.trace).cells[a]
                        == firmware[a]
                &&& forall|a: int|
                    a < 0 || firmware.len() <= a ==> #[trigger] memory.after_all(
                        done.m.trace,
                    ).cells[a] == memory.after_all(run.m.trace).cells[a]
            }
        }),
{
    lemma_write_chunks(run.select(Bank::Bank0), 0, firmware);
    if dmp::load_firmware(run, firmware).ok() {
        chip::firmware_lands(memory, run, firmware);
    }
}

/// So many pauses of 100 microseconds.
pub open spec fn hundreds(count: nat) -> Seq<Pause> {
    Seq::new(count, |i: int| Pause::Us(100))
}

proof fn lemma_hundreds(pauses: Seq<Pause>, count: nat)
    ensures
        pauses.push(Pause::Us(100)) + hundreds(count) == pauses + hundreds(count + 1),
        pauses + hundreds(0) == pauses,
{
    assert(pauses.push(Pause::Us(100)) + hundreds(count) =~= pauses + hundreds(count + 1));
    assert(pauses + hundreds(0) =~= pauses);
}

proof fn lemma_full_banks(address: int, n: int, rest: int)
    requires
        address >= 0,
        address % 16 == 0,
        0 < n <= 16,
        rest >= 0,
        rest > 0 ==> n == 16,
    ensures
        full_banks(address, n + rest) == full_banks(address + n, rest) + if (address + n) % 256
            == 0 {
            1nat
        } else {
            0nat
        },
{
}

/// How many times 256 bytes are full, from `address` on.
pub open spec fn full_banks(address: int, len: int) -> nat {
    ((address + len) / 256 - address / 256) as nat
}

#[verifier::spinoff_prover]
#[verifier::rlimit(40)]
proof fn lemma_write_firmware<E>(run: Run<E>, address: int, data: Seq<u8>)
    requires
        address >= 0,
        address % 16 == 0,
    ensures
        ({
            let done = nonblocking::write_firmware(run, address, data);
            &&& effects::goes_through(run, done)
            &&& effects::only(
                run,
                done,
                set![Register::MemBankSel, Register::MemStartAddr, Register::MemRW],
            )
            &&& forall|other: Register|
                other != Register::MemRW ==> #[trigger] effects::reads(done.m.trace, other)
                    == effects::reads(run.m.trace, other)
            &&& run.m.kept(done.m)
            &&& done.m.world == run.m.world
            &&& done.ok() ==> run.ok()
            &&& done.ok() ==> done.paused() == run.paused() + hundreds(
                full_banks(address, data.len() as int),
            )
        }),
    decreases data.len(),
{
    let done = nonblocking::write_firmware(run, address, data);
    if run.ok() && data.len() > 0 {
        let n = if data.len() < dmp::CHUNK {
            data.len() as int
        } else {
            dmp::CHUNK as int
        };
        let placed = run.put(Register::MemBankSel, (address / 256) as u8).put(
            Register::MemStartAddr,
            (address % 256) as u8,
        );
        let pushed = dmp::push_bytes(placed, data.take(n));
        lemma_push_bytes(placed, data.take(n));
        let then = if (address + n) % 256 == 0 {
            pushed.pause(Pause::Us(100))
        } else {
            pushed
        };
        let rest = data.skip(n);
        if rest.len() == 0 {
            assert(nonblocking::write_firmware(then, address + n, rest) == then);
        } else {
            lemma_write_firmware(then, address + n, rest);
        }
        lemma_full_banks(address, n, rest.len() as int);
        lemma_hundreds(run.paused(), full_banks(address + n, rest.len() as int));
    } else {
        assert(run.paused() =~= run.paused() + hundreds(0));
    }
}

/// Without blocking, firmware is loaded with the same effect, and a pause of 100
/// microseconds is made whenever 256 bytes are full, and at no other time.
pub proof fn nonblocking_loading_loads<E>(memory: Memory, run: Run<E>, firmware: Seq<u8>)
    requires
        firmware.len() <= u16::MAX,
    ensures
        ({
            let done = nonblocking::load_firmware(run, firmware);
            &&& effects::goes_through(run, done)
            &&& done.m.world == run.m.world
            &&& done.ok() ==> {
                &&& finished(run, done)
                &&& effects::only(run, done, firmware_registers())
                &&& done.paused() == run.paused() + hundreds((firmware.len() / 256) as nat)
                &&& forall|other: Register|
                    other != Register::MemRW ==> #[trigger] effects::reads(done.m.trace, other)
                        == effects::reads(run.m.trace, other)
                &&& run.m.kept(done.m)
                &&& forall|a: int|
                    0 <= a < firmware.len() ==> #[trigger] memory.after_all(done.m.trace).cells[a]
                        == firmware[a]
                &&& forall|a: int|
                    a < 0 || firmware.len() <= a ==> #[trigger] memory.after_all(
                        done.m.trace,
                    ).cells[a] == memory.after_all(run.m.trace).cells[a]
            }
        }),
{
    lemma_write_firmware(run.select(Bank::Bank0), 0, firmware);
    assert(full_banks(0, firmware.len() as int) == firmware.len() / 256);
    if nonblocking::load_firmware(run, firmware).ok() {
        chip::nonblocking_firmware_lands(memory, run, firmware);
    }
}

/// The processor was reset, the chip is prepared for it, and the firmware is loaded: the
/// reset bit was written, each sensor runs at its full rate, the firmware lies at the
/// beginning of the memory and the program starts where it has to. Nothing else changed.
pub open spec fn started<E>(
    memory: Memory,
    before: Run<E>,
    after: Run<E>,
    firmware: Seq<u8>,
) -> bool {
    &&& effects::rewrote(before, after, Register::UserCtrl, 0x08, 0x08)
    &&& prepared(before, after)
    &&& finished(before, after)
    &&& effects::only(
        before,
        after,
        prepared_registers().union(firmware_registers()).insert(Register::UserCtrl),
    )
    &&& forall|a: int|
        0 <= a < firmware.len() ==> #[trigger] memory.after_all(after.m.trace).cells[a]
            == firmware[a]
    &&& forall|a: int|
        a < 0 || firmware.len() <= a ==> #[trigger] memory.after_all(after.m.trace).cells[a]
            == memory.after_all(before.m.trace).cells[a]
}

proof fn lemma_cells_prepare<E>(memory: Memory, run: Run<E>)
    ensures
        memory.after_all(dmp::prepare(run).m.trace).cells == memory.after_all(run.m.trace).cells,
{
}

/// Initialising the processor resets it, prepares the chip for it and loads its firmware.
/// Without blocking it waits a millisecond after the reset and two after the firmware, and
/// while it is loaded.
#[verifier::spinoff_prover]
#[verifier::rlimit(60)]
pub proof fn starting_starts<E>(memory: Memory, run: Run<E>, firmware: Seq<u8>)
    requires
        firmware.len() <= u16::MAX,
    ensures
        ({
            let done = dmp::start(run, firmware);
            &&& effects::goes_through(run, done)
            &&& done.ok() ==> started(memory, run, done, firmware)
            &&& done.ok() ==> done.paused() == run.paused()
        }),
        ({
            let done = nonblocking::start(run, firmware);
            &&& effects::goes_through(run, done)
            &&& done.ok() ==> started(memory, run, done, firmware)
            &&& done.ok() ==> done.paused() == (run.paused().push(Pause::Ms(1)) + hundreds(
                (firmware.len() / 256) as nat,
            )).push(Pause::Ms(2))
        }),
{
    lemma_numbers();
    let reset = dmp::reset(run);
    let prepared = dmp::prepare(reset);
    preparing_prepares(reset);
    lemma_cells_prepare(memory, reset);
    loading_loads(memory, prepared, firmware);
    let waited = reset.ms(1);
    let ready = dmp::prepare(waited);
    preparing_prepares(waited);
    lemma_cells_prepare(memory, waited);
    nonblocking_loading_loads(memory, ready, firmware);
    if reset.ok() {
        effects::lemma_rewrote(run.select(Bank::Bank0), Register::UserCtrl, DMP_RST, DMP_RST);
    }
    lemma_failed_loading(prepared, firmware);
    lemma_failed_loading(ready, firmware);
}

/// After a failure a sequence stays where it is.
proof fn lemma_failed_loading<E>(run: Run<E>, firmware: Seq<u8>)
    requires
        firmware.len() <= u16::MAX,
    ensures
        dmp::load_firmware(run, firmware).ok() ==> run.ok(),
        nonblocking::load_firmware(run, firmware).ok() ==> run.ok(),
{
    lemma_write_chunks(run.select(Bank::Bank0), 0, firmware);
    lemma_write_firmware(run.select(Bank::Bank0), 0, firmware);
}

/// Turning the processor on or off turns the FIFO on or off with it, and the I2C master on
/// only where the magnetometer is set up; the accelerometer and the gyroscope, and nothing
/// else, lead to it exactly while it is on; and it may raise its interrupt exactly while it
/// is on. Before it is turned on, low power, the duty cycles of the two sensors and any axis
/// that is off are undone, where they are found, and with it the duty cycle of the I2C master
/// is turned on. Nothing else changes.
#[verifier::spinoff_prover]
#[verifier::rlimit(60)]
pub proof fn enabling_enables<E>(run: Run<E>, on: bool, magnetometer: bool)
    ensures
        ({
            let done = dmp::enable(run, on, magnetometer);
            let power = done.saw(Register::PwrMgmt1)[run.saw(Register::PwrMgmt1).len() as int][0];
            let cycles = done.saw(Register::LpConfig)[run.saw(Register::LpConfig).len() as int][0];
            let axes = done.saw_last(Register::PwrMgmt2);
            let p = done.wrote(Register::PwrMgmt1);
            let c = done.wrote(Register::LpConfig);
            let n = run.wrote(Register::LpConfig).len() as int;
            &&& effects::goes_through(run, done)
            &&& done.ok() ==> {
                &&& effects::rewrote(run, done, Register::UserCtrl, 0xE0, if on && magnetometer {
                    0xE0
                } else if on {
                    0xC0
                } else {
                    0
                })
                &&& effects::set_to(run, done, Register::FifoEn2, if on {
                    0x1E
                } else {
                    0
                })
                &&& effects::rewrote(run, done, Register::IntEnable, 0x02, if on {
                    0x02
                } else {
                    0
                })
                &&& effects::only(
                    run,
                    done,
                    set![
                        Register::UserCtrl,
                        Register::FifoEn2,
                        Register::IntEnable,
                        Register::PwrMgmt1,
                        Register::PwrMgmt2,
                        Register::LpConfig,
                    ],
                )
                &&& done.paused() == run.paused()
                &&& run.m.kept(done.m)
                &&& if on {
                    &&& if power & 0x20 != 0 {
                        &&& p == run.wrote(Register::PwrMgmt1).push(p.last())
                        &&& p.last() & 0x20 == 0
                        &&& p.last() & 0xDF == done.saw_last(Register::PwrMgmt1) & 0xDF
                    } else {
                        p == run.wrote(Register::PwrMgmt1)
                    }
                    &&& if axes & 0x3F != 0 {
                        effects::set_to(run, done, Register::PwrMgmt2, 0)
                    } else {
                        done.wrote(Register::PwrMgmt2) == run.wrote(Register::PwrMgmt2)
                    }
                    &&& if cycles & 0x30 != 0 {
                        &&& c == run.wrote(Register::LpConfig).push(c[n]).push(c.last())
                        &&& c[n] & 0x30 == 0
                    } else {
                        c == run.wrote(Register::LpConfig).push(c.last())
                    }
                    &&& c.last() & 0x40 == 0x40
                    &&& c.last() & 0xBF == done.saw_last(Register::LpConfig) & 0xBF
                } else {
                    &&& p == run.wrote(Register::PwrMgmt1)
                    &&& c == run.wrote(Register::LpConfig)
                    &&& done.wrote(Register::PwrMgmt2) == run.wrote(Register::PwrMgmt2)
                }
            }
        }),
{
    lemma_numbers();
    assert(!0x20u8 == 0xDFu8 && !0x40u8 == 0xBFu8) by (bit_vector);
    let done = dmp::enable(run, on, magnetometer);
    let selected = run.select(Bank::Bank0);
    let checked = dmp::clear_if_set(selected, Register::PwrMgmt1, LP_EN, LP_EN);
    let powered = if on {
        dmp::full_power(selected)
    } else {
        selected
    };
    let master = on && magnetometer;
    let bits = device::spec_flag(DMP_EN | FIFO_EN, on) | device::spec_flag(I2C_MST_EN, master);
    let set = powered.modify(Register::UserCtrl, DMP_EN | FIFO_EN | I2C_MST_EN, bits);
    let routed = set.put(Register::FifoEn2, device::spec_flag(dmp::MOTION_AXES, on));
    if done.ok() {
        effects::lemma_rewrote(powered, Register::UserCtrl, DMP_EN | FIFO_EN | I2C_MST_EN, bits);
        if on {
            let read = selected.get(Register::PwrMgmt1);
            if selected.next_byte() & LP_EN != 0 {
                effects::lemma_rewrote(read, Register::PwrMgmt1, LP_EN, 0);
            }
            if checked.next_byte() & (ACCEL_CYCLE | GYRO_CYCLE) != 0 {
                effects::lemma_rewrote(
                    checked.get(Register::LpConfig),
                    Register::LpConfig,
                    ACCEL_CYCLE | GYRO_CYCLE,
                    0,
                );
            }
            effects::lemma_rewrote(routed, Register::LpConfig, I2C_MST_CYCLE, I2C_MST_CYCLE);
            let cycled = routed.modify(Register::LpConfig, I2C_MST_CYCLE, I2C_MST_CYCLE);
            effects::lemma_rewrote(cycled, Register::IntEnable, DMP_INT1_EN, DMP_INT1_EN);
        } else {
            effects::lemma_rewrote(routed, Register::IntEnable, DMP_INT1_EN, 0);
        }
    }
}

/// The I2C master is turned on with the processor if and only if the driver knows that the
/// magnetometer is set up.
pub proof fn master_follows_the_magnetometer<E>(run: Run<E>, on: bool)
    ensures
        ({
            let done = dmp::switch(run, on);
            &&& effects::goes_through(run, done)
            &&& done.ok() ==> effects::rewrote(
                run,
                done,
                Register::UserCtrl,
                0xE0,
                if on && run.state().mag_initialized {
                    0xE0
                } else if on {
                    0xC0
                } else {
                    0
                },
            )
            &&& done == dmp::enable(run, on, run.state().mag_initialized)
        }),
{
    enabling_enables(run, on, run.state().mag_initialized);
}

/// Routing leads the accelerometer and the three axes of the gyroscope to the processor,
/// leaves the other sources as they were read, and raises the reset bits of the FIFOs.
pub proof fn routing_routes<E>(run: Run<E>)
    ensures
        ({
            let done = dmp::route_sensors(run);
            &&& effects::goes_through(run, done)
            &&& done.ok() ==> {
                &&& effects::rewrote(run, done, Register::FifoEn2, 0x1E, 0x1E)
                &&& effects::set_to(run, done, Register::FifoRst, 0x1F)
                &&& effects::only(run, done, set![Register::FifoEn2, Register::FifoRst])
                &&& done.paused() == run.paused().push(Pause::Spin(1000))
                &&& run.m.kept(done.m)
            }
        }),
{
    lemma_numbers();
    if dmp::route_sensors(run).ok() {
        effects::lemma_rewrote(
            run.select(Bank::Bank0),
            Register::FifoEn2,
            dmp::MOTION_AXES,
            dmp::MOTION_AXES,
        );
    }
}

/// Nine-axis fusion: the processor puts out the same as raises an interrupt, its three
/// calibrations and the fusion run, and it is told of all three sensors. Nothing else in
/// the memory or on the chip changes.
#[verifier::spinoff_prover]
#[verifier::rlimit(60)]
pub proof fn fusion_is_stored<E>(memory: Memory, run: Run<E>)
    ensures
        ({
            let done = dmp::enable_fusion(run);
            &&& effects::goes_through(run, done)
            &&& effects::only(
                run,
                done,
                set![Register::MemBankSel, Register::MemStartAddr, Register::MemRW],
            )
            &&& run.m.kept(done.m)
            &&& done.ok() ==> {
                &&& stores(memory, done, 0x0040, 0x8408)
                &&& stores(memory, done, 0x0042, 0x0007)
                &&& stores(memory, done, 0x004C, 0x8408)
                &&& stores(memory, done, 0x004E, 0x0107)
                &&& stores(memory, done, 0x008A, 0x000B)
                &&& keeps_others(memory, run, done, set![0x0040, 0x0042, 0x004C, 0x004E, 0x008A])
                &&& done.paused() == run.paused().push(Pause::Spin(10000))
            }
        }),
{
    let a = dmp::write_memory(run, dmp::DATA_OUT_CTL1, dmp::high_first(0x8408));
    let b = dmp::write_memory(a, dmp::DATA_OUT_CTL2, dmp::high_first(0x0007));
    let c = dmp::write_memory(b, dmp::DATA_INTR_CTL, dmp::high_first(0x8408));
    let d = dmp::write_memory(c, dmp::MOTION_EVENT_CTL, dmp::high_first(0x0107));
    let e = dmp::write_memory(d, dmp::DATA_RDY_STATUS, dmp::high_first(0x000B));
    memory_writes_stay_in_memory(run, dmp::DATA_OUT_CTL1, dmp::high_first(0x8408));
    memory_writes_stay_in_memory(a, dmp::DATA_OUT_CTL2, dmp::high_first(0x0007));
    memory_writes_stay_in_memory(b, dmp::DATA_INTR_CTL, dmp::high_first(0x8408));
    memory_writes_stay_in_memory(c, dmp::MOTION_EVENT_CTL, dmp::high_first(0x0107));
    memory_writes_stay_in_memory(d, dmp::DATA_RDY_STATUS, dmp::high_first(0x000B));
    memory_reads_stay_in_memory(e.spin(10000), dmp::DATA_RDY_STATUS, seq![0u8, 0u8]);
    chip::lemma_cells_read_memory(
        memory,
        e.spin(10000),
        dmp::DATA_RDY_STATUS,
        seq![0u8, 0u8],
    );
    if dmp::enable_fusion(run).ok() {
        lemma_stores(memory, run, dmp::DATA_OUT_CTL1, 0x8408);
        lemma_stores(memory, a, dmp::DATA_OUT_CTL2, 0x0007);
        lemma_stores(memory, b, dmp::DATA_INTR_CTL, 0x8408);
        lemma_stores(memory, c, dmp::MOTION_EVENT_CTL, 0x0107);
        lemma_stores(memory, d, dmp::DATA_RDY_STATUS, 0x000B);
    }
}

/// The output rates of the accelerometer, the gyroscope and, with a magnetometer, the
/// compass, and that of the quaternion that is made of them, are the sensors' own, and their
/// counters start anew. Nothing else in the memory changes.
#[verifier::spinoff_prover]
#[verifier::rlimit(60)]
proof fn lemma_set_rates<E>(memory: Memory, run: Run<E>, magnetometer: bool)
    ensures
        ({
            let done = dmp::set_rates(run, magnetometer);
            &&& stays_in_memory(run, done)
            &&& done.ok() ==> rates_are_zero(memory, run, done, magnetometer)
        }),
{
    reveal(dmp::set_rates);
    let a = dmp::set_odr(run, dmp::ODR_ACCEL, 0);
    let b = dmp::set_odr(a, dmp::ODR_GYRO, 0);
    lemma_rate(memory, run, dmp::ODR_ACCEL, 0);
    lemma_rate(memory, a, dmp::ODR_GYRO, 0);
    if magnetometer {
        let c = dmp::set_odr(b, dmp::ODR_CPASS, 0);
        lemma_rate(memory, b, dmp::ODR_CPASS, 0);
        lemma_rate(memory, c, dmp::ODR_QUAT9, 0);
    } else {
        lemma_rate(memory, b, dmp::ODR_QUAT6, 0);
    }
}

proof fn lemma_rate<E>(memory: Memory, run: Run<E>, odr_register: u16, interval: u16)
    requires
        is_rate(odr_register),
    ensures
        stays_in_memory(run, dmp::set_odr(run, odr_register, interval)),
        dmp::set_odr(run, odr_register, interval).ok() ==> {
            let done = dmp::set_odr(run, odr_register, interval);
            &&& stores(memory, done, odr_register as int, interval as int)
            &&& stores(memory, done, odr_register - 0x20, 0)
            &&& keeps_others(memory, run, done, set![odr_register as int, odr_register - 0x20])
        },
{
    rate_is_stored(memory, run, odr_register, interval);
    let set = dmp::write_memory(run, odr_register, dmp::high_first(interval));
    memory_writes_stay_in_memory(run, odr_register, dmp::high_first(interval));
    match dmp::spec_odr_counter(odr_register) {
        Some(counter) => {
            memory_writes_stay_in_memory(set, counter, seq![0u8, 0u8]);
        },
        None => {},
    }
}

/// The rates of the sensors and of the quaternion that is made of them are 0, with their
/// counters, and the rest of the memory is as it was.
pub open spec fn rates_are_zero<E>(
    memory: Memory,
    before: Run<E>,
    after: Run<E>,
    magnetometer: bool,
) -> bool {
    &&& stores(memory, after, 0x00BE, 0)
    &&& stores(memory, after, 0x009E, 0)
    &&& stores(memory, after, 0x00BA, 0)
    &&& stores(memory, after, 0x009A, 0)
    &&& if magnetometer {
        &&& stores(memory, after, 0x00B6, 0)
        &&& stores(memory, after, 0x0096, 0)
        &&& stores(memory, after, 0x00A8, 0)
        &&& stores(memory, after, 0x0088, 0)
        &&& keeps_others(
            memory,
            before,
            after,
            set![0x00BE, 0x009E, 0x00BA, 0x009A, 0x00B6, 0x0096, 0x00A8, 0x0088],
        )
    } else {
        &&& stores(memory, after, 0x00AC, 0)
        &&& stores(memory, after, 0x008C, 0)
        &&& keeps_others(
            memory,
            before,
            after,
            set![0x00BE, 0x009E, 0x00BA, 0x009A, 0x00AC, 0x008C],
        )
    }
}

#[verifier::spinoff_prover]
#[verifier::rlimit(60)]
proof fn lemma_announce_sensors<E>(memory: Memory, run: Run<E>, magnetometer: bool)
    ensures
        ({
            let done = dmp::announce_sensors(run, magnetometer);
            &&& stays_in_memory(run, done)
            &&& done.ok() ==> {
                &&& stores(memory, done, 0x008A, if magnetometer {
                    0x000B
                } else {
                    0x0003
                })
                &&& stores(memory, done, 0x004E, if magnetometer {
                    0x0107
                } else {
                    0x0003
                })
                &&& keeps_others(memory, run, done, set![0x008A, 0x004E])
            }
        }),
{
    reveal(dmp::announce_sensors);
    let ready = dmp::ready_bits(true, true, magnetometer);
    let motion = dmp::motion_bits(true, true, magnetometer, magnetometer);
    let a = dmp::enable_sensors(run, true, true, magnetometer);
    let (b, status) = dmp::read_memory(a, dmp::DATA_RDY_STATUS, seq![0, 0]);
    let c = dmp::control_motion(b, true, true, magnetometer, magnetometer);
    memory_writes_stay_in_memory(run, dmp::DATA_RDY_STATUS, dmp::high_first(ready));
    memory_reads_stay_in_memory(a, dmp::DATA_RDY_STATUS, seq![0u8, 0u8]);
    memory_writes_stay_in_memory(b, dmp::MOTION_EVENT_CTL, dmp::high_first(motion));
    memory_reads_stay_in_memory(c, dmp::MOTION_EVENT_CTL, status);
    chip::lemma_cells_read_memory(memory, a, dmp::DATA_RDY_STATUS, seq![0u8, 0u8]);
    chip::lemma_cells_read_memory(memory, c, dmp::MOTION_EVENT_CTL, status);
    if dmp::announce_sensors(run, magnetometer).ok() {
        lemma_stores(memory, run, dmp::DATA_RDY_STATUS, ready);
        lemma_stores(memory, b, dmp::MOTION_EVENT_CTL, motion);
    }
}

/// Setting the processor up for its sensors wakes the chip and stops its duty cycles, sets
/// the rates, tells the processor of the sensors and of what to run on them, with the
/// compass and nine-axis fusion only where there is a magnetometer, and ends with low power
/// and the duty cycle of the I2C master on. Nothing else changes.
#[verifier::spinoff_prover]
#[verifier::rlimit(60)]
pub proof fn sensors_are_configured<E>(memory: Memory, run: Run<E>, magnetometer: bool)
    ensures
        ({
            let done = dmp::configure_sensors(run, magnetometer);
            let p = done.wrote(Register::PwrMgmt1);
            let c = done.wrote(Register::LpConfig);
            let n = run.wrote(Register::PwrMgmt1).len() as int;
            let k = run.wrote(Register::LpConfig).len() as int;
            &&& effects::goes_through(run, done)
            &&& done.ok() ==> {
                &&& p == run.wrote(Register::PwrMgmt1).push(p[n]).push(p[n + 1])
                &&& p[n] & 0x40 == 0
                &&& p[n + 1] & 0x20 == 0x20
                &&& p[n + 1] & 0xDF == done.saw_last(Register::PwrMgmt1) & 0xDF
                &&& c == run.wrote(Register::LpConfig).push(c[k]).push(c[k + 1])
                &&& c[k] & 0x70 == 0
                &&& c[k + 1] & 0x40 == 0x40
                &&& c[k + 1] & 0xBF == done.saw_last(Register::LpConfig) & 0xBF
                &&& set_up_for(memory, run, done, magnetometer)
                &&& effects::only(
                    run,
                    done,
                    set![
                        Register::PwrMgmt1,
                        Register::LpConfig,
                        Register::MemBankSel,
                        Register::MemStartAddr,
                        Register::MemRW,
                    ],
                )
                &&& done.paused() == run.paused().push(Pause::Spin(1000))
                &&& run.m.kept(done.m)
            }
        }),
{
    lemma_numbers();
    assert(!0x20u8 == 0xDFu8 && !0x40u8 == 0xBFu8) by (bit_vector);
    let selected = run.select(Bank::Bank0);
    let woken = selected.modify(Register::PwrMgmt1, SLEEP, 0);
    let awake = woken.modify(
        Register::LpConfig,
        I2C_MST_CYCLE | ACCEL_CYCLE | GYRO_CYCLE,
        0,
    ).spin(1000);
    let rated = dmp::set_rates(awake, magnetometer);
    let announced = dmp::announce_sensors(rated, magnetometer);
    lemma_set_rates(memory, awake, magnetometer);
    lemma_announce_sensors(memory, rated, magnetometer);
    if dmp::configure_sensors(run, magnetometer).ok() {
        effects::lemma_rewrote(selected, Register::PwrMgmt1, SLEEP, 0);
        effects::lemma_rewrote(
            woken,
            Register::LpConfig,
            I2C_MST_CYCLE | ACCEL_CYCLE | GYRO_CYCLE,
            0,
        );
        effects::lemma_rewrote(announced, Register::PwrMgmt1, LP_EN, LP_EN);
        effects::lemma_rewrote(
            announced.modify(Register::PwrMgmt1, LP_EN, LP_EN),
            Register::LpConfig,
            I2C_MST_CYCLE,
            I2C_MST_CYCLE,
        );
    }
}

/// The rates are 0 with their counters, and the processor is told of its sensors and of
/// what to run on them. The rest of the memory is as it was.
pub open spec fn set_up_for<E>(
    memory: Memory,
    before: Run<E>,
    after: Run<E>,
    magnetometer: bool,
) -> bool {
    &&& stores(memory, after, 0x008A, if magnetometer {
        0x000B
    } else {
        0x0003
    })
    &&& stores(memory, after, 0x004E, if magnetometer {
        0x0107
    } else {
        0x0003
    })
    &&& stores(memory, after, 0x00BE, 0)
    &&& stores(memory, after, 0x009E, 0)
    &&& stores(memory, after, 0x00BA, 0)
    &&& stores(memory, after, 0x009A, 0)
    &&& if magnetometer {
        &&& stores(memory, after, 0x00B6, 0)
        &&& stores(memory, after, 0x0096, 0)
        &&& stores(memory, after, 0x00A8, 0)
        &&& stores(memory, after, 0x0088, 0)
        &&& keeps_others(
            memory,
            before,
            after,
            set![
                0x00BE,
                0x009E,
                0x00BA,
                0x009A,
                0x00B6,
                0x0096,
                0x00A8,
                0x0088,
                0x008A,
                0x004E,
            ],
        )
    } else {
        &&& stores(memory, after, 0x00AC, 0)
        &&& stores(memory, after, 0x008C, 0)
        &&& keeps_others(
            memory,
            before,
            after,
            set![0x00BE, 0x009E, 0x00BA, 0x009A, 0x00AC, 0x008C, 0x008A, 0x004E],
        )
    }
}

/// A write covers an address of the memory.
pub open spec fn covers(write: DmpWrite, a: int) -> bool {
    write.address <= a < write.address + write.data@.len()
}

/// Write number `i` is the last to cover an address.
pub open spec fn covers_last(writes: Seq<DmpWrite>, i: int, a: int) -> bool {
    &&& 0 <= i < writes.len()
    &&& covers(writes[i], a)
    &&& forall|j: int| i < j < writes.len() ==> !covers(#[trigger] writes[j], a)
}

/// From write number `from` on, each address holds what the last write that covers it put
/// there, and an address that none covers holds what it did.
pub open spec fn holds_writes(
    before: Map<int, u8>,
    after: Map<int, u8>,
    writes: Seq<DmpWrite>,
    from: int,
    a: int,
) -> bool {
    &&& forall|i: int|
        from <= i && #[trigger] covers_last(writes, i, a) ==> after[a] == writes[i].data@[a
            - writes[i].address]
    &&& (forall|j: int| from <= j < writes.len() ==> !covers(#[trigger] writes[j], a)) ==> after[a]
        == before[a]
}

proof fn lemma_holds_writes(
    before: Map<int, u8>,
    middle: Map<int, u8>,
    after: Map<int, u8>,
    writes: Seq<DmpWrite>,
    from: int,
    a: int,
)
    requires
        0 <= from < writes.len(),
        middle[a] == if covers(writes[from], a) {
            writes[from].data@[a - writes[from].address]
        } else {
            before[a]
        },
        holds_writes(middle, after, writes, from + 1, a),
    ensures
        holds_writes(before, after, writes, from, a),
{
    if forall|j: int| from + 1 <= j < writes.len() ==> !covers(#[trigger] writes[j], a) {
        assert(after[a] == middle[a]);
        assert forall|i: int| from <= i && #[trigger] covers_last(writes, i, a) implies after[a]
            == writes[i].data@[a - writes[i].address] by {
            assert(i == from);
        }
    } else {
        assert forall|i: int| from <= i && #[trigger] covers_last(writes, i, a) implies after[a]
            == writes[i].data@[a - writes[i].address] by {
            if i == from {
                let j = choose|j: int| from + 1 <= j < writes.len() && covers(
                    #[trigger] writes[j],
                    a,
                );
                assert(!covers(writes[j], a));
            }
        }
    }
}

proof fn lemma_write_all<E>(memory: Memory, run: Run<E>, writes: Seq<DmpWrite>, from: int)
    requires
        0 <= from,
        forall|i: int|
            0 <= i < writes.len() ==> {
                &&& (#[trigger] writes[i]).address + writes[i].data@.len() <= 0x1_0000
                &&& memory.carries || chip::fits(writes[i].address as int, writes[i].data@.len())
            },
    ensures
        stays_in_memory(run, dmp::write_all(run, writes, from)),
        dmp::write_all(run, writes, from).ok() ==> forall|a: int|
            holds_writes(
                memory.after_all(run.m.trace).cells,
                #[trigger] memory.after_all(dmp::write_all(run, writes, from).m.trace).cells,
                writes,
                from,
                a,
            ),
    decreases writes.len() - from,
{
    if run.ok() && from < writes.len() {
        let then = dmp::write_memory(run, writes[from].address, writes[from].data@);
        memory_writes_stay_in_memory(run, writes[from].address, writes[from].data@);
        lemma_write_all(memory, then, writes, from + 1);
        let done = dmp::write_all(run, writes, from);
        if done.ok() {
            chip::memory_takes_what_is_written(
                memory,
                run,
                writes[from].address,
                writes[from].data@,
            );
            let before = memory.after_all(run.m.trace);
            let middle = memory.after_all(then.m.trace);
            let after = memory.after_all(done.m.trace);
            assert forall|a: int| holds_writes(before.cells, after.cells, writes, from, a) by {
                assert(middle.cells[a] == if covers(writes[from], a) {
                    writes[from].data@[a - writes[from].address]
                } else {
                    before.cells[a]
                });
                assert(holds_writes(middle.cells, after.cells, writes, from + 1, a));
                lemma_holds_writes(before.cells, middle.cells, after.cells, writes, from, a);
            }
        }
    }
}

proof fn lemma_write_placed<E>(memory: Memory, run: Run<E>, address: u16, data: Seq<u8>)
    requires
        nonblocking::write_memory(run, address, data).ok(),
        memory.runs(address as int, data.len()),
    ensures
        memory.after_all(nonblocking::write_memory(run, address, data).m.trace).holds(
            memory.after_all(run.m.trace),
            address as int,
            data,
        ),
{
    let banked = run.put(Register::MemBankSel, (address / 256) as u8);
    let placed = banked.put(Register::MemStartAddr, (address % 256) as u8);
    lemma_push_bytes(placed, data);
    chip::lemma_memory_put(memory, banked, Register::MemStartAddr, (address % 256) as u8);
    chip::lemma_memory_put(memory, run, Register::MemBankSel, (address / 256) as u8);
    chip::lemma_carries(memory, placed.m.trace);
    chip::lemma_push_bytes(memory, placed, data);
}

proof fn lemma_write_all_placed<E>(memory: Memory, run: Run<E>, writes: Seq<DmpWrite>, from: int)
    requires
        0 <= from,
        run.state().bank == Some(Bank::Bank0),
        forall|i: int|
            0 <= i < writes.len() ==> memory.runs(
                (#[trigger] writes[i]).address as int,
                writes[i].data@.len(),
            ),
    ensures
        stays_in_memory(run, nonblocking::write_all(run, writes, from)),
        nonblocking::write_all(run, writes, from).ok() ==> forall|a: int|
            holds_writes(
                memory.after_all(run.m.trace).cells,
                #[trigger] memory.after_all(
                    nonblocking::write_all(run, writes, from).m.trace,
                ).cells,
                writes,
                from,
                a,
            ),
    decreases writes.len() - from,
{
    if run.ok() && from < writes.len() {
        let then = nonblocking::write_memory(run, writes[from].address, writes[from].data@);
        chip::select_is_free(run, Bank::Bank0);
        memory_writes_stay_in_memory(run, writes[from].address, writes[from].data@);
        lemma_push_state(
            run.put(Register::MemBankSel, (writes[from].address / 256) as u8).put(
                Register::MemStartAddr,
                (writes[from].address % 256) as u8,
            ),
            writes[from].data@,
        );
        lemma_write_all_placed(memory, then, writes, from + 1);
        let done = nonblocking::write_all(run, writes, from);
        if done.ok() {
            lemma_write_placed(memory, run, writes[from].address, writes[from].data@);
            let before = memory.after_all(run.m.trace);
            let middle = memory.after_all(then.m.trace);
            let after = memory.after_all(done.m.trace);
            assert forall|a: int| holds_writes(before.cells, after.cells, writes, from, a) by {
                assert(middle.cells[a] == if covers(writes[from], a) {
                    writes[from].data@[a - writes[from].address]
                } else {
                    before.cells[a]
                });
                assert(holds_writes(middle.cells, after.cells, writes, from + 1, a));
                lemma_holds_writes(before.cells, middle.cells, after.cells, writes, from, a);
            }
        }
    }
}

proof fn lemma_push_state<E>(run: Run<E>, data: Seq<u8>)
    ensures
        dmp::push_bytes(run, data).m.state == run.m.state,
    decreases data.len(),
{
    if run.ok() && data.len() > 0 {
        lemma_push_state(run.put(Register::MemRW, data[0]), data.skip(1));
    }
}

/// Each address of the memory holds what the last write of a configuration put there, but
/// that the processor is told of all three sensors at the end.
pub open spec fn configured<E>(
    memory: Memory,
    before: Run<E>,
    after: Run<E>,
    writes: Seq<DmpWrite>,
) -> bool {
    &&& stores(memory, after, 0x008A, 0x000B)
    &&& forall|a: int|
        a != 0x008A && a != 0x008B ==> #[trigger] holds_writes(
            memory.after_all(before.m.trace).cells,
            memory.after_all(after.m.trace).cells,
            writes,
            0,
            a,
        )
}

/// A configuration comes to lie in the processor's memory, write by write. Before, the I2C
/// master and its duty cycle are stopped where they are found running, with time for them
/// to come to rest. Nothing else changes.
#[verifier::spinoff_prover]
#[verifier::rlimit(60)]
pub proof fn configuration_is_stored<E>(memory: Memory, run: Run<E>, writes: Seq<DmpWrite>)
    requires
        forall|i: int|
            0 <= i < writes.len() ==> {
                &&& (#[trigger] writes[i]).address + writes[i].data@.len() <= 0x1_0000
                &&& memory.carries || chip::fits(writes[i].address as int, writes[i].data@.len())
            },
    ensures
        ({
            let done = dmp::configure(run, writes);
            let cycle = done.saw(Register::LpConfig)[run.saw(Register::LpConfig).len() as int][0];
            let master = done.saw(Register::UserCtrl)[run.saw(Register::UserCtrl).len() as int][0];
            &&& effects::goes_through(run, done)
            &&& done.ok() ==> {
                &&& configured(memory, run, done, writes)
                &&& effects::only(
                    run,
                    done,
                    set![
                        Register::LpConfig,
                        Register::UserCtrl,
                        Register::MemBankSel,
                        Register::MemStartAddr,
                        Register::MemRW,
                    ],
                )
                &&& if cycle & 0x40 != 0 {
                    let c = done.wrote(Register::LpConfig);
                    &&& c == run.wrote(Register::LpConfig).push(c.last())
                    &&& c.last() & 0x40 == 0
                    &&& c.last() & 0xBF == done.saw_last(Register::LpConfig) & 0xBF
                } else {
                    done.wrote(Register::LpConfig) == run.wrote(Register::LpConfig)
                }
                &&& if master & 0x20 != 0 {
                    let u = done.wrote(Register::UserCtrl);
                    &&& u == run.wrote(Register::UserCtrl).push(u.last())
                    &&& u.last() & 0x20 == 0
                    &&& u.last() & 0xDF == done.saw_last(Register::UserCtrl) & 0xDF
                } else {
                    done.wrote(Register::UserCtrl) == run.wrote(Register::UserCtrl)
                }
                &&& done.paused() == if cycle & 0x40 != 0 || master & 0x20 != 0 {
                    run.paused().push(Pause::Spin(5000))
                } else {
                    run.paused()
                }
                &&& run.m.kept(done.m)
            }
        }),
{
    lemma_numbers();
    assert(!0x20u8 == 0xDFu8 && !0x40u8 == 0xBFu8) by (bit_vector);
    let selected = run.select(Bank::Bank0);
    let stopped = dmp::stop_master(selected);
    let all = dmp::write_all(stopped, writes, 0);
    let told = dmp::write_memory(all, dmp::DATA_RDY_STATUS, dmp::high_first(0x000B));
    lemma_write_all(memory, stopped, writes, 0);
    memory_writes_stay_in_memory(all, dmp::DATA_RDY_STATUS, dmp::high_first(0x000B));
    memory_reads_stay_in_memory(told, dmp::DATA_RDY_STATUS, seq![0u8, 0u8]);
    chip::lemma_cells_read_memory(memory, told, dmp::DATA_RDY_STATUS, seq![0u8, 0u8]);
    if dmp::configure(run, writes).ok() {
        let read = selected.get(Register::LpConfig).get(Register::UserCtrl);
        let cycles = selected.next_byte() & I2C_MST_CYCLE != 0;
        let enabled = selected.get(Register::LpConfig).next_byte() & I2C_MST_EN != 0;
        let cleared = if cycles {
            read.modify(Register::LpConfig, I2C_MST_CYCLE, 0)
        } else {
            read
        };
        if cycles {
            effects::lemma_rewrote(read, Register::LpConfig, I2C_MST_CYCLE, 0);
        }
        if enabled {
            effects::lemma_rewrote(cleared, Register::UserCtrl, I2C_MST_EN, 0);
        }
        lemma_stores(memory, all, dmp::DATA_RDY_STATUS, 0x000B);
        lemma_configured(memory, run, stopped, all, dmp::configure(run, writes), writes);
    }
}

proof fn lemma_configured<E>(
    memory: Memory,
    before: Run<E>,
    stopped: Run<E>,
    all: Run<E>,
    after: Run<E>,
    writes: Seq<DmpWrite>,
)
    requires
        memory.after_all(stopped.m.trace).cells == memory.after_all(before.m.trace).cells,
        forall|a: int|
            holds_writes(
                memory.after_all(stopped.m.trace).cells,
                memory.after_all(all.m.trace).cells,
                writes,
                0,
                a,
            ),
        forall|a: int|
            a != 0x008A && a != 0x008B ==> #[trigger] memory.after_all(after.m.trace).cells[a]
                == memory.after_all(all.m.trace).cells[a],
        stores(memory, after, 0x008A, 0x000B),
    ensures
        configured(memory, before, after, writes),
{
    let old_cells = memory.after_all(before.m.trace).cells;
    let all_cells = memory.after_all(all.m.trace).cells;
    let new_cells = memory.after_all(after.m.trace).cells;
    assert forall|a: int| a != 0x008A && a != 0x008B implies #[trigger] holds_writes(
        old_cells,
        new_cells,
        writes,
        0,
        a,
    ) by {
        assert(holds_writes(old_cells, all_cells, writes, 0, a));
        assert(new_cells[a] == all_cells[a]);
    }
}

/// Without blocking, a configuration comes to lie in the memory in the same way, as far as
/// each write lies one byte behind the other, and the I2C master is left alone.
pub proof fn nonblocking_configuration_is_stored<E>(
    memory: Memory,
    run: Run<E>,
    writes: Seq<DmpWrite>,
)
    requires
        forall|i: int|
            0 <= i < writes.len() ==> memory.runs(
                (#[trigger] writes[i]).address as int,
                writes[i].data@.len(),
            ),
    ensures
        ({
            let done = nonblocking::configure(run, writes);
            &&& effects::goes_through(run, done)
            &&& done.ok() ==> {
                &&& configured(memory, run, done, writes)
                &&& effects::only(
                    run,
                    done,
                    set![Register::MemBankSel, Register::MemStartAddr, Register::MemRW],
                )
                &&& done.paused() == run.paused()
                &&& run.m.kept(done.m)
            }
        }),
{
    let selected = run.select(Bank::Bank0);
    let all = nonblocking::write_all(selected, writes, 0);
    let told = nonblocking::write_memory(all, dmp::DATA_RDY_STATUS, dmp::high_first(0x000B));
    if selected.ok() {
        assert(selected.state().bank == Some(Bank::Bank0)) by {
            reveal(Run::select);
            reveal(Run::put);
            reveal(Run::remember);
        }
        lemma_write_all_placed(memory, selected, writes, 0);
    } else {
        assert(all == selected);
    }
    let placed = all.put(Register::MemBankSel, (dmp::DATA_RDY_STATUS / 256) as u8).put(
        Register::MemStartAddr,
        (dmp::DATA_RDY_STATUS % 256) as u8,
    );
    lemma_push_bytes(placed, dmp::high_first(0x000B));
    memory_reads_stay_in_memory(told, dmp::DATA_RDY_STATUS, seq![0u8, 0u8]);
    chip::lemma_cells_read_memory(memory, told, dmp::DATA_RDY_STATUS, seq![0u8, 0u8]);
    let done = nonblocking::configure(run, writes);
    if done.ok() {
        lemma_write_placed(memory, all, dmp::DATA_RDY_STATUS, dmp::high_first(0x000B));
        let after = memory.after_all(told.m.trace);
        assert(after.cells[0x008A] == dmp::high_first(0x000B)[0]);
        assert(after.cells[0x008B] == dmp::high_first(0x000B)[1]);
        lemma_configured(memory, run, selected, all, done, writes);
    }
}

/// The number of bytes in the FIFO is the one that its two registers are read to hold, and
/// nothing is written.
pub proof fn count_is_two_registers<E>(run: Run<E>)
    ensures
        ({
            let (read, count) = dmp::count(run);
            let high = read.saw_last(Register::FifoCountH);
            &&& effects::goes_through(run, read)
            &&& effects::only(run, read, set![])
            &&& read.paused() == run.paused()
            &&& read.m.world == run.m.world
            &&& read.ok() ==> {
                &&& count == 256 * (high & 0x1F) + read.saw_last(Register::FifoCountL)
                &&& read.saw(Register::FifoRW) == run.saw(Register::FifoRW)
                &&& run.m.kept(read.m)
            }
        }),
{
    let high = run.select(Bank::Bank0).next_byte();
    assert(high & 0x1F <= 0x1F) by (bit_vector);
}

proof fn lemma_fill_fifo<E>(run: Run<E>, buffer: Seq<u8>, from: int, to: int)
    requires
        0 <= from <= to <= buffer.len(),
    ensures
        ({
            let (after, bytes) = script::fill(run, Register::FifoRW, buffer, from, to);
            let n = run.saw(Register::FifoRW).len() as int;
            let seen = after.saw(Register::FifoRW);
            &&& bytes.len() == buffer.len()
            &&& after.ok() ==> {
                &&& seen.len() == n + (to - from)
                &&& forall|i: int| 0 <= i < n ==> seen[i] == run.saw(Register::FifoRW)[i]
                &&& forall|i: int|
                    from <= i < to ==> #[trigger] bytes[i] == seen[n + (i - from)][0]
                &&& forall|i: int|
                    0 <= i < buffer.len() && !(from <= i < to) ==> #[trigger] bytes[i]
                        == buffer[i]
            }
        }),
    decreases to - from,
{
    if run.ok() && from < to {
        let then = run.get(Register::FifoRW);
        let stored = if then.ok() {
            buffer.update(from, run.next_byte())
        } else {
            buffer
        };
        lemma_fill_fifo(then, stored, from + 1, to);
        let (after, bytes) = script::fill(run, Register::FifoRW, buffer, from, to);
        lemma_fill(then, Register::FifoRW, stored, from + 1, to);
        if after.ok() {
            let n = run.saw(Register::FifoRW).len() as int;
            assert(then.saw(Register::FifoRW)[n][0] == run.next_byte());
            assert(bytes[from] == stored[from]);
        }
    }
}

/// Reading the FIFO brings as many bytes as wait in it, or as the buffer holds if that is
/// less, in the order in which they come out, and leaves the rest of the buffer alone.
/// Nothing is written.
pub proof fn draining_brings_what_waits<E>(run: Run<E>, buffer: Seq<u8>)
    requires
        buffer.len() <= usize::MAX,
    ensures
        ({
            let (done, bytes, len) = fifo::drain(run, buffer);
            let waiting = 256 * (done.saw_last(Register::FifoCountH) & 0x1F) + done.saw_last(
                Register::FifoCountL,
            );
            let n = run.saw(Register::FifoRW).len() as int;
            let seen = done.saw(Register::FifoRW);
            &&& effects::goes_through(run, done)
            &&& effects::only(run, done, set![])
            &&& done.paused() == run.paused()
            &&& done.ok() ==> {
                &&& bytes.len() == buffer.len()
                &&& len <= waiting && len <= buffer.len()
                &&& len == waiting || len == buffer.len()
                &&& seen.len() == n + len
                &&& forall|i: int| 0 <= i < len ==> #[trigger] bytes[i] == seen[n + i][0]
                &&& forall|i: int| len <= i < buffer.len() ==> #[trigger] bytes[i] == buffer[i]
                &&& run.m.kept(done.m)
            }
        }),
{
    count_is_two_registers(run);
    let (counted, waiting) = dmp::count(run);
    let len = if waiting < buffer.len() {
        waiting as int
    } else {
        buffer.len() as int
    };
    lemma_fill(counted, Register::FifoRW, buffer, 0, len);
    lemma_fill_fifo(counted, buffer, 0, len);
}

/// Reading the FIFO in one access fills the whole buffer with what that access brings.
/// Nothing is written, and where there is no room nothing is read.
pub proof fn burst_fills_the_buffer<E>(run: Run<E>, buffer: Seq<u8>)
    ensures
        ({
            let (done, bytes) = dmp::burst_into(run, buffer);
            &&& effects::goes_through(run, done)
            &&& effects::only(run, done, set![])
            &&& done.paused() == run.paused()
            &&& done.ok() ==> {
                &&& bytes.len() == buffer.len()
                &&& done.saw(Register::FifoRW) == if buffer.len() > 0 {
                    run.saw(Register::FifoRW).push(bytes)
                } else {
                    run.saw(Register::FifoRW)
                }
                &&& run.m.kept(done.m)
            }
        }),
{
}

/// There is a packet if and only if at least a header of two bytes waits in the FIFO. It is
/// all that waits, up to 64 bytes, read in one access. Nothing is written.
pub proof fn packet_is_what_waits<E>(run: Run<E>)
    ensures
        ({
            let (done, packet) = dmp::take_packet(run);
            let waiting = 256 * (done.saw_last(Register::FifoCountH) & 0x1F) + done.saw_last(
                Register::FifoCountL,
            );
            &&& effects::goes_through(run, done)
            &&& effects::only(run, done, set![])
            &&& done.paused() == run.paused()
            &&& done.ok() ==> {
                &&& packet is Some <==> waiting >= 2
                &&& packet matches Some(bytes) ==> {
                    &&& bytes.len() == if waiting <= 64 {
                        waiting
                    } else {
                        64
                    }
                    &&& done.saw(Register::FifoRW) == run.saw(Register::FifoRW).push(bytes)
                }
                &&& packet is None ==> done.saw(Register::FifoRW) == run.saw(Register::FifoRW)
                &&& run.m.kept(done.m)
            }
        }),
{
    count_is_two_registers(run);
}

/// Of the quaternions in a packet the first that is there is taken: of nine axes, else of
/// six, else of the game rotation vector, else of the geomagnetic one.
pub proof fn first_quaternion_is_the_best<Q>(data: DmpData<Q>)
    ensures
        data.quaternion_9axis is Some ==> data.spec_first_quaternion() == data.quaternion_9axis,
        data.quaternion_9axis is None && data.quaternion_6axis is Some
            ==> data.spec_first_quaternion() == data.quaternion_6axis,
        data.quaternion_9axis is None && data.quaternion_6axis is None
            && data.game_rotation_vector is Some ==> data.spec_first_quaternion()
            == data.game_rotation_vector,
        data.quaternion_9axis is None && data.quaternion_6axis is None
            && data.game_rotation_vector is None ==> data.spec_first_quaternion()
            == data.geomag_rotation_vector,
{
}

} // verus!
