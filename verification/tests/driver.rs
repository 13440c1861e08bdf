//! The driver on a simulated chip.

use std::collections::{HashMap, VecDeque};

use icm20948::dmp::{DmpData, DmpWrite, ODR_ACCEL, ODR_CNTR_ACCEL};
use icm20948::fifo::MAX_RECORDS;
use icm20948::interface::Pause;
use icm20948::script::State;
use icm20948::transcript::{Answer, NoWait, Request, Step, Stop, Transcript};
use icm20948::{
    AccelCalibration, AccelConfig, AccelData, AccelDlpf, AccelFullScale, Bank, ClockSource,
    CycleConfig, Error, FifoConfig, FifoConfigAdvanced, FifoMode, GyroCalibration, GyroConfig,
    GyroData, GyroDlpf, GyroFullScale, Icm20948Driver, InterruptConfig, InterruptPinConfig,
    LowPowerConfig, LowPowerRate, MagCalibration, MagConfig, MagMode, MagReading, ParseError,
    PowerMode, SensorPowerConfig, WomMode,
};

type Driver = Icm20948Driver<Transcript>;

#[derive(Debug, Clone, Copy, PartialEq, Eq)]
enum Op {
    /// A read of a register, by bank and address, and its length.
    R(u8, u8, usize),
    /// A write to a register, by bank and address, and the value.
    W(u8, u8, u8),
    /// A pause.
    P(Pause),
}

struct Chip {
    bank: u8,
    regs: HashMap<(u8, u8), u8>,
    queued: HashMap<(u8, u8), VecDeque<u8>>,
    memory: Vec<u8>,
    fifo: VecDeque<u8>,
    log: Vec<Op>,
    refuse: Vec<usize>,
    accesses: usize,
    state: Option<State>,
    ahead: usize,
}

impl Chip {
    fn new() -> Self {
        let mut regs = HashMap::new();
        regs.insert((0, 0x00), 0xEA);
        Chip {
            bank: 0,
            regs,
            queued: HashMap::new(),
            memory: vec![0; 0x1_0000],
            fifo: VecDeque::new(),
            log: Vec::new(),
            refuse: Vec::new(),
            accesses: 0,
            state: None,
            ahead: 64,
        }
    }

    /// A chip whose driver has bank 0 selected.
    fn ready() -> Self {
        let mut chip = Chip::new();
        chip.start().unwrap();
        chip.log.clear();
        chip.accesses = 0;
        chip
    }

    fn reg(&self, bank: u8, address: u8) -> u8 {
        *self.regs.get(&(bank, address)).unwrap_or(&0)
    }

    fn set(&mut self, bank: u8, address: u8, value: u8) {
        self.regs.insert((bank, address), value);
    }

    fn queue(&mut self, bank: u8, address: u8, values: &[u8]) {
        self.queued.entry((bank, address)).or_default().extend(values);
    }

    fn memory_cursor(&self) -> usize {
        256 * self.reg(0, 0x7E) as usize + self.reg(0, 0x7C) as usize
    }

    fn advance_memory(&mut self) {
        let next = self.reg(0, 0x7C).wrapping_add(1);
        self.set(0, 0x7C, next);
    }

    fn read_byte(&mut self, address: u8) -> u8 {
        let key = (self.bank, address);
        if let Some(queue) = self.queued.get_mut(&key) {
            if let Some(value) = queue.pop_front() {
                return value;
            }
        }
        match key {
            (0, 0x70) => (self.fifo.len() >> 8) as u8,
            (0, 0x71) => self.fifo.len() as u8,
            (0, 0x72) => self.fifo.pop_front().unwrap_or(0xFF),
            (0, 0x7D) => {
                let value = self.memory[self.memory_cursor()];
                self.advance_memory();
                value
            }
            _ => self.reg(self.bank, address),
        }
    }

    fn carry_out(&mut self, request: &Request) -> Answer {
        let number = self.accesses;
        self.accesses += 1;
        if self.refuse.contains(&number) {
            return Answer { data: vec![], carried_out: false };
        }
        match request {
            Request::Read { address, len, .. } => {
                self.log.push(Op::R(self.bank, *address, *len));
                let mut data = Vec::new();
                for i in 0..*len {
                    let at = if *address == 0x72 { *address } else { *address + i as u8 };
                    data.push(self.read_byte(at));
                }
                Answer { data, carried_out: true }
            }
            Request::Write { address, size_bits, data } => {
                assert_eq!(*size_bits, 8);
                assert_eq!(data.len(), 1);
                if *address == 0x7F {
                    self.log.push(Op::W(0xFF, 0x7F, data[0]));
                    self.bank = data[0] >> 4;
                } else {
                    self.log.push(Op::W(self.bank, *address, data[0]));
                    if (self.bank, *address) == (0, 0x7D) {
                        let cursor = self.memory_cursor();
                        self.memory[cursor] = data[0];
                        self.advance_memory();
                    } else {
                        self.set(self.bank, *address, data[0]);
                    }
                }
                Answer { data: vec![], carried_out: true }
            }
        }
    }

    /// Carries out what a transcript asks for. Returns the answers, and whether all
    /// is done.
    fn carry_on(&mut self, transcript: Transcript) -> (Vec<Answer>, bool) {
        let done = transcript.is_answered();
        let mut added = Vec::new();
        for step in transcript.batch() {
            match step {
                Step::Pause(pause) => self.log.push(Op::P(pause)),
                Step::Access(number) => {
                    let answer = self.carry_out(&transcript.requests()[number]);
                    let stop = !answer.carried_out;
                    added.push(answer);
                    if stop {
                        break;
                    }
                }
            }
        }
        let mut answers = transcript.into_answers();
        answers.append(&mut added);
        (answers, done)
    }

    /// Identifies the chip.
    fn start(&mut self) -> Result<(), Error<Stop>> {
        let mut answers = Vec::new();
        loop {
            // The first run finds out what has to be asked.
            let mut driver =
                Icm20948Driver::resume(Transcript::new(answers, self.ahead), fresh_state());
            let result = driver.read_who_am_i();
            let state = driver.state();
            let (known, done) = self.carry_on(driver.release());
            answers = known;
            if done {
                return match Icm20948Driver::new(Transcript::new(answers, 0)) {
                    Ok(driver) => {
                        assert_eq!(driver.state(), state);
                        assert_eq!(result.unwrap(), 0xEA);
                        self.state = Some(driver.state());
                        Ok(())
                    }
                    Err(error) => Err(error),
                };
            }
        }
    }

    /// Runs a method of the driver.
    fn run<T>(
        &mut self,
        method: impl Fn(&mut Driver) -> Result<T, Error<Stop>>,
    ) -> Result<T, Error<Stop>> {
        let mut answers = Vec::new();
        loop {
            let mut driver =
                Icm20948Driver::resume(Transcript::new(answers, self.ahead), self.state.unwrap());
            let result = method(&mut driver);
            let state = driver.state();
            let (known, done) = self.carry_on(driver.release());
            answers = known;
            if done {
                self.state = Some(state);
                return result;
            }
        }
    }

    fn state(&self) -> State {
        self.state.unwrap()
    }
}

fn fresh_state() -> State {
    State::default()
}

const MS: fn(u32) -> Op = |ms| Op::P(Pause::Ms(ms));

const BANK0: Op = Op::W(0xFF, 0x7F, 0x00);
const BANK2: Op = Op::W(0xFF, 0x7F, 0x20);
const BANK3: Op = Op::W(0xFF, 0x7F, 0x30);

// Identification and basics.

#[test]
fn new_accepts_the_right_chip() {
    let mut chip = Chip::new();
    chip.start().unwrap();
    assert_eq!(chip.log, vec![BANK0, Op::R(0, 0x00, 1)]);
    assert_eq!(chip.state().bank, Some(Bank::Bank0));
    assert_eq!(chip.state().mag_initialized, false);
}

#[test]
fn new_refuses_another_chip() {
    let answers = vec![
        Answer { data: vec![], carried_out: true },
        Answer { data: vec![0x71], carried_out: true },
    ];
    match Icm20948Driver::new(Transcript::new(answers, 0)) {
        Err(Error::InvalidDevice(0x71)) => {}
        _ => panic!("accepted"),
    }
}

#[test]
fn new_passes_on_what_the_bus_reports() {
    let answers = vec![Answer { data: vec![], carried_out: false }];
    match Icm20948Driver::new(Transcript::new(answers, 0)) {
        Err(Error::Bus(Stop::Refused(0))) => {}
        _ => panic!("accepted"),
    }
    match Icm20948Driver::new(Transcript::new(vec![], 0)) {
        Err(Error::Bus(Stop::Unanswered)) => {}
        _ => panic!("accepted"),
    }
}

#[test]
fn init_resets_waits_and_wakes() {
    let mut chip = Chip::ready();
    chip.queue(0, 0x06, &[0x41, 0x41]);
    chip.run(|d| d.init(&mut NoWait::new())).unwrap();
    assert_eq!(
        chip.log,
        vec![
            Op::R(0, 0x06, 1),
            Op::W(0, 0x06, 0xC1),
            MS(100),
            Op::R(0, 0x06, 1),
            Op::W(0, 0x06, 0x01),
        ]
    );
}

#[test]
fn a_selected_bank_is_not_selected_again() {
    let mut chip = Chip::ready();
    chip.run(|d| {
        d.select_bank(Bank::Bank2)?;
        d.select_bank(Bank::Bank2)?;
        d.select_bank(Bank::Bank0)
    })
    .unwrap();
    assert_eq!(chip.log, vec![BANK2, BANK0]);
}

#[test]
fn a_refused_selection_is_not_remembered() {
    let mut chip = Chip::ready();
    chip.refuse = vec![0];
    let result = chip.run(|d| d.select_bank(Bank::Bank3));
    assert!(matches!(result, Err(Error::Bus(Stop::Refused(0)))));
    assert_eq!(chip.state().bank, Some(Bank::Bank0));
}

#[test]
fn enable_spi_mode_keeps_the_other_bits() {
    let mut chip = Chip::ready();
    chip.set(0, 0x03, 0xA0);
    chip.run(|d| d.enable_spi_mode()).unwrap();
    assert_eq!(chip.reg(0, 0x03), 0xB0);
}

#[test]
fn readings_are_high_byte_first() {
    let mut chip = Chip::ready();
    for (i, v) in [0x01u8, 0x02, 0xFF, 0xFE, 0x80, 0x00].iter().enumerate() {
        chip.set(0, 0x2D + i as u8, *v);
        chip.set(0, 0x33 + i as u8, *v);
    }
    chip.set(0, 0x39, 0xFF);
    chip.set(0, 0x3A, 0x9C);
    assert_eq!(
        chip.run(|d| d.read_accel()).unwrap(),
        AccelData { x: 258, y: -2, z: -32768 }
    );
    assert_eq!(chip.run(|d| d.read_gyro()).unwrap(), GyroData { x: 258, y: -2, z: -32768 });
    assert_eq!(chip.run(|d| d.read_temperature()).unwrap(), -100);
    assert_eq!(
        chip.log,
        vec![Op::R(0, 0x2D, 6), Op::R(0, 0x33, 6), Op::R(0, 0x39, 2)]
    );
    assert_eq!(chip.run(|d| d.read_accelerometer_raw()).unwrap(), (258, -2, -32768));
    assert_eq!(chip.run(|d| d.read_gyroscope_raw()).unwrap(), (258, -2, -32768));
}

#[test]
fn single_bits_go_on_and_off() {
    let mut chip = Chip::ready();
    chip.set(0, 0x06, 0x21);
    chip.run(|d| d.set_sleep(true)).unwrap();
    assert_eq!(chip.reg(0, 0x06), 0x61);
    chip.run(|d| d.set_sleep(false)).unwrap();
    assert_eq!(chip.reg(0, 0x06), 0x21);
    chip.set(0, 0x03, 0x10);
    chip.run(|d| d.set_dmp_enable(true)).unwrap();
    assert_eq!(chip.reg(0, 0x03), 0x90);
    chip.run(|d| d.set_fifo_enable(true)).unwrap();
    assert_eq!(chip.reg(0, 0x03), 0xD0);
    chip.run(|d| d.set_dmp_enable(false)).unwrap();
    chip.run(|d| d.set_fifo_enable(false)).unwrap();
    assert_eq!(chip.reg(0, 0x03), 0x10);
    chip.run(|d| d.fifo_enable(true)).unwrap();
    assert_eq!(chip.reg(0, 0x03), 0x50);
}

#[test]
fn the_interface_comes_back() {
    let mut driver = Icm20948Driver::resume(Transcript::new(vec![], 3), fresh_state());
    assert!(driver.current_bank_mut().is_none());
    driver.select_bank(Bank::Bank1).unwrap();
    assert_eq!(driver.current_bank_mut(), Some(&mut Bank::Bank1));
    *driver.current_bank_mut().unwrap() = Bank::Bank0;
    driver.select_bank(Bank::Bank0).unwrap();
    assert_eq!(driver.device().interface.requests().len(), 1);
    assert_eq!(driver.device_mut().interface.is_answered(), false);
    let transcript = driver.release();
    assert_eq!(
        transcript.requests()[0],
        Request::Write { address: 0x7F, size_bits: 8, data: vec![0x10] }
    );
}

// The motion processor.

#[test]
fn firmware_goes_into_memory_in_chunks() {
    let mut chip = Chip::ready();
    let firmware: Vec<u8> = (0..40u8).map(|i| i + 1).collect();
    chip.run(|d| d.dmp_load_firmware(&firmware)).unwrap();
    assert_eq!(&chip.memory[..40], firmware.as_slice());
    assert_eq!(chip.memory[40], 0);
    let addresses: Vec<Op> = chip
        .log
        .iter()
        .copied()
        .filter(|op| matches!(op, Op::W(0, 0x7C, _) | Op::W(0, 0x7E, _)))
        .collect();
    assert_eq!(
        addresses,
        vec![
            Op::W(0, 0x7E, 0),
            Op::W(0, 0x7C, 0),
            Op::W(0, 0x7E, 0),
            Op::W(0, 0x7C, 16),
            Op::W(0, 0x7E, 0),
            Op::W(0, 0x7C, 32),
        ]
    );
    assert_eq!(
        &chip.log[chip.log.len() - 6..],
        &[
            BANK2,
            Op::W(2, 0x50, 0x10),
            Op::W(2, 0x51, 0x00),
            BANK0,
            Op::W(0, 0x75, 0x48),
            Op::W(0, 0x26, 0xE4),
        ]
    );
}

#[test]
fn firmware_crosses_memory_banks() {
    let mut chip = Chip::ready();
    let firmware: Vec<u8> = (0..600usize).map(|i| (i % 251) as u8).collect();
    chip.run(|d| d.dmp_load_firmware(&firmware)).unwrap();
    assert_eq!(&chip.memory[..600], firmware.as_slice());
    assert_eq!(chip.memory[600], 0);
}

#[test]
fn no_firmware_still_sets_the_start_address() {
    let mut chip = Chip::ready();
    chip.run(|d| d.dmp_load_firmware(&[])).unwrap();
    assert_eq!(chip.log.len(), 6);
    assert_eq!(chip.reg(2, 0x50), 0x10);
}

#[test]
fn dmp_init_prepares_the_sensors() {
    let mut chip = Chip::ready();
    chip.set(0, 0x03, 0x80);
    chip.set(0, 0x06, 0x60);
    chip.set(0, 0x05, 0x70);
    chip.set(0, 0x07, 0x3F);
    chip.set(2, 0x01, 0x10);
    chip.set(2, 0x14, 0x20);
    chip.run(|d| d.dmp_init(&[7, 8, 9])).unwrap();
    assert_eq!(chip.reg(0, 0x03), 0x88);
    assert_eq!(chip.reg(0, 0x06), 0x01);
    assert_eq!(chip.reg(0, 0x05), 0x00);
    assert_eq!(chip.reg(0, 0x07), 0x00);
    assert_eq!(chip.reg(2, 0x01), 0x11);
    assert_eq!(chip.reg(2, 0x14), 0x21);
    assert_eq!(chip.reg(2, 0x09), 0x01);
    assert_eq!(chip.reg(2, 0x54), 0x01);
    assert_eq!(&chip.memory[..3], &[7, 8, 9]);
    assert_eq!(chip.state().bank, Some(Bank::Bank0));
}

#[test]
fn dmp_reset_sets_its_bit() {
    let mut chip = Chip::ready();
    chip.set(0, 0x03, 0x40);
    chip.run(|d| d.dmp_reset()).unwrap();
    assert_eq!(chip.reg(0, 0x03), 0x48);
}

#[test]
fn dmp_enable_forces_full_power() {
    let mut chip = Chip::ready();
    chip.set(0, 0x06, 0x21);
    chip.set(0, 0x05, 0x30);
    chip.set(0, 0x07, 0x04);
    chip.run(|d| d.dmp_enable(true)).unwrap();
    assert_eq!(chip.reg(0, 0x06), 0x01);
    assert_eq!(chip.reg(0, 0x05), 0x40);
    assert_eq!(chip.reg(0, 0x07), 0x00);
    assert_eq!(chip.reg(0, 0x03), 0xC0);
    assert_eq!(chip.reg(0, 0x67), 0x1E);
    assert_eq!(chip.reg(0, 0x10), 0x02);
}

#[test]
fn dmp_enable_leaves_full_power_alone() {
    let mut chip = Chip::ready();
    chip.set(0, 0x06, 0x01);
    chip.run(|d| d.dmp_enable(true)).unwrap();
    assert_eq!(
        &chip.log[..4],
        &[Op::R(0, 0x06, 1), Op::R(0, 0x05, 1), Op::R(0, 0x07, 1), Op::R(0, 0x03, 1)]
    );
}

#[test]
fn dmp_disable_turns_the_fifo_off() {
    let mut chip = Chip::ready();
    chip.set(0, 0x03, 0xF4);
    chip.set(0, 0x10, 0x0A);
    chip.set(0, 0x67, 0x1F);
    chip.run(|d| d.dmp_enable(false)).unwrap();
    assert_eq!(chip.reg(0, 0x03), 0x14);
    assert_eq!(chip.reg(0, 0x67), 0x00);
    assert_eq!(chip.reg(0, 0x10), 0x08);
}

#[test]
fn dmp_enable_turns_the_master_on_with_a_magnetometer() {
    let mut chip = Chip::ready();
    chip.state = Some(State { mag_initialized: true, ..chip.state() });
    chip.run(|d| d.dmp_enable(true)).unwrap();
    assert_eq!(chip.reg(0, 0x03), 0xE0);
}

#[test]
fn sensor_fusion_is_written_to_memory() {
    let mut chip = Chip::ready();
    chip.run(|d| d.dmp_enable_sensor_fusion()).unwrap();
    assert_eq!(&chip.memory[0x40..0x44], &[0x84, 0x08, 0x00, 0x07]);
    assert_eq!(&chip.memory[0x4C..0x50], &[0x84, 0x08, 0x01, 0x07]);
    assert_eq!(&chip.memory[0x8A..0x8C], &[0x00, 0x0B]);
    assert!(chip.log.contains(&Op::P(Pause::Spin(10000))));
    assert_eq!(&chip.log[chip.log.len() - 2..], &[Op::R(0, 0x7D, 1), Op::R(0, 0x7D, 1)]);
}

#[test]
fn sensor_routing_keeps_the_temperature_bit() {
    let mut chip = Chip::ready();
    chip.set(0, 0x67, 0x01);
    chip.run(|d| d.dmp_enable_sensor_routing()).unwrap();
    assert_eq!(
        chip.log,
        vec![
            Op::R(0, 0x67, 1),
            Op::W(0, 0x67, 0x1F),
            Op::W(0, 0x68, 0x1F),
            Op::P(Pause::Spin(1000)),
        ]
    );
    chip.set(0, 0x67, 0xFF);
    assert_eq!(chip.run(|d| d.read_fifo_en_2()).unwrap(), 0xFF);
}

#[test]
fn fifo_count_takes_thirteen_bits() {
    let mut chip = Chip::ready();
    chip.queue(0, 0x70, &[0xE1, 0xE1]);
    chip.queue(0, 0x71, &[0x05, 0x05]);
    assert_eq!(chip.run(|d| d.read_fifo_count()).unwrap(), 0x0105);
    assert_eq!(chip.run(|d| d.fifo_count()).unwrap(), 0x0105);
}

#[test]
fn fifo_is_read_in_one_access() {
    let mut chip = Chip::ready();
    chip.fifo.extend([1u8, 2, 3, 4]);
    assert_eq!(chip.run(|d| d.read_fifo_raw(&mut [0; 3])).unwrap(), 3);
    assert_eq!(chip.log, vec![Op::R(0, 0x72, 3)]);
    assert_eq!(chip.run(|d| d.read_fifo_raw(&mut [])).unwrap(), 0);
    assert_eq!(chip.log.len(), 1);
    let bytes = chip
        .run(|d| {
            let mut buffer = [9u8; 1];
            d.read_fifo_raw(&mut buffer)?;
            Ok(buffer)
        })
        .unwrap();
    assert_eq!(bytes, [4]);
}

#[test]
fn reset_fifo_sets_its_bit() {
    let mut chip = Chip::ready();
    chip.run(|d| d.reset_fifo()).unwrap();
    assert_eq!(chip.reg(0, 0x03), 0x04);
}

#[test]
fn the_watermark_reads_back() {
    let mut chip = Chip::ready();
    chip.run(|d| d.set_dmp_fifo_watermark(0x1234)).unwrap();
    assert_eq!(&chip.memory[0x1FE..0x200], &[0x12, 0x34]);
    assert_eq!(chip.run(|d| d.get_dmp_fifo_watermark()).unwrap(), 0x1234);
}

#[test]
fn memory_reads_back_at_its_address() {
    let mut chip = Chip::ready();
    chip.memory[0x1080] = 5;
    chip.memory[0x1081] = 6;
    let bytes = chip
        .run(|d| {
            let mut buffer = [0u8; 3];
            d.read_dmp_memory(0x1080, &mut buffer)?;
            Ok(buffer)
        })
        .unwrap();
    assert_eq!(bytes, [5, 6, 0]);
    assert_eq!(&chip.log[..2], &[Op::W(0, 0x7E, 0x10), Op::W(0, 0x7C, 0x80)]);
}

#[test]
fn a_failed_read_leaves_the_rest_of_the_buffer() {
    let mut chip = Chip::ready();
    chip.memory[0] = 7;
    chip.refuse = vec![3];
    let mut seen = [9u8; 3];
    let result = {
        let cell = std::cell::RefCell::new(&mut seen);
        chip.run(|d| {
            let mut buffer = [9u8; 3];
            let result = d.read_dmp_memory(0, &mut buffer);
            **cell.borrow_mut() = buffer;
            result
        })
    };
    assert!(matches!(result, Err(Error::Bus(Stop::Refused(3)))));
    assert_eq!(seen, [7, 9, 9]);
}

#[test]
fn the_processor_interrupt_goes_on_and_off() {
    let mut chip = Chip::ready();
    chip.set(0, 0x10, 0x08);
    chip.run(|d| d.set_dmp_interrupt_enable(true)).unwrap();
    assert_eq!(chip.reg(0, 0x10), 0x0A);
    assert!(chip.run(|d| d.is_dmp_interrupt_enabled()).unwrap());
    chip.run(|d| d.set_dmp_interrupt_enable(false)).unwrap();
    assert!(!chip.run(|d| d.is_dmp_interrupt_enabled()).unwrap());
}

#[test]
fn dmp_configure_stops_the_master_first() {
    let mut chip = Chip::ready();
    chip.set(0, 0x05, 0x40);
    chip.set(0, 0x03, 0x20);
    let long: Vec<u8> = (1..=20).collect();
    chip.run(|d| {
        d.dmp_configure(&[
            DmpWrite { address: 0x0100, data: &[1, 2] },
            DmpWrite { address: 0x0200, data: &[] },
            DmpWrite { address: 0x0210, data: &long },
        ])
    })
    .unwrap();
    assert_eq!(chip.reg(0, 0x05), 0x00);
    assert_eq!(chip.reg(0, 0x03), 0x00);
    assert!(chip.log.contains(&Op::P(Pause::Spin(5000))));
    assert_eq!(&chip.memory[0x0100..0x0102], &[1, 2]);
    assert_eq!(&chip.memory[0x0210..0x0224], long.as_slice());
    assert_eq!(&chip.memory[0x8A..0x8C], &[0x00, 0x0B]);
    let empty = [Op::W(0, 0x7E, 0x02), Op::W(0, 0x7C, 0x00)];
    assert!(!chip.log.windows(2).any(|pair| pair == empty));
}

#[test]
fn dmp_configure_leaves_a_stopped_master_alone() {
    let mut chip = Chip::ready();
    chip.run(|d| d.dmp_configure(&[])).unwrap();
    assert!(!chip.log.contains(&Op::P(Pause::Spin(5000))));
    assert_eq!(&chip.log[..2], &[Op::R(0, 0x05, 1), Op::R(0, 0x03, 1)]);
}

#[test]
fn a_packet_needs_a_header() {
    let mut chip = Chip::ready();
    chip.fifo.extend([1u8]);
    let parsed = chip.run(|d| d.dmp_read_fifo(|p: &[u8]| Some(p.len()))).unwrap();
    assert_eq!(parsed, None);
    assert_eq!(chip.fifo.len(), 1);
}

#[test]
fn a_packet_is_what_waits_up_to_64_bytes() {
    let mut chip = Chip::ready();
    chip.fifo.extend([1u8, 2, 3]);
    let parsed = chip.run(|d| d.dmp_read_fifo(|p: &[u8]| Some(p.to_vec()))).unwrap();
    assert_eq!(parsed, Some(vec![1, 2, 3]));
    chip.fifo.extend((0..100u8).collect::<Vec<u8>>());
    let parsed = chip.run(|d| d.dmp_read_fifo(|p: &[u8]| Some(p.len()))).unwrap();
    assert_eq!(parsed, Some(64));
    assert_eq!(chip.fifo.len(), 36);
    let parsed: Option<u8> = chip.run(|d| d.dmp_read_fifo(|_: &[u8]| None)).unwrap();
    assert_eq!(parsed, None);
}

#[test]
fn the_first_quaternion_wins() {
    let none: DmpData<u8> = DmpData {
        quaternion_9axis: None,
        quaternion_6axis: None,
        game_rotation_vector: None,
        geomag_rotation_vector: None,
    };
    assert_eq!(none.first_quaternion(), None);
    let pick = |a, b, c, e| {
        DmpData {
            quaternion_9axis: a,
            quaternion_6axis: b,
            game_rotation_vector: c,
            geomag_rotation_vector: e,
        }
        .first_quaternion()
    };
    assert_eq!(pick(Some(1), Some(2), Some(3), Some(4)), Some(1));
    assert_eq!(pick(None, Some(2), Some(3), Some(4)), Some(2));
    assert_eq!(pick(None, None, Some(3), Some(4)), Some(3));
    assert_eq!(pick(None, None, None, Some(4)), Some(4));
    let mut chip = Chip::ready();
    chip.fifo.extend([0u8, 6]);
    let found = chip
        .run(|d| {
            d.dmp_read_quaternion(|p: &[u8]| {
                Some(DmpData {
                    quaternion_9axis: None,
                    quaternion_6axis: Some(p[1]),
                    game_rotation_vector: Some(0),
                    geomag_rotation_vector: None,
                })
            })
        })
        .unwrap();
    assert_eq!(found, Some(6));
    let found: Option<u8> = chip.run(|d| d.dmp_read_quaternion(|_: &[u8]| None)).unwrap();
    assert_eq!(found, None);
}

#[test]
fn an_output_rate_restarts_its_counter() {
    let mut chip = Chip::ready();
    chip.memory[ODR_CNTR_ACCEL as usize] = 9;
    chip.run(|d| d.dmp_set_odr(ODR_ACCEL, 0x0102)).unwrap();
    assert_eq!(&chip.memory[0xBE..0xC0], &[1, 2]);
    assert_eq!(&chip.memory[0x9E..0xA0], &[0, 0]);
}

#[test]
fn an_unknown_output_rate_is_refused_after_the_write() {
    let mut chip = Chip::ready();
    let result = chip.run(|d| d.dmp_set_odr(0x0300, 0x0102));
    assert!(matches!(result, Err(Error::InvalidConfig)));
    assert_eq!(&chip.memory[0x300..0x302], &[1, 2]);
}

#[test]
fn sensors_and_features_are_bits() {
    let mut chip = Chip::ready();
    chip.run(|d| d.dmp_enable_sensors(true, true, true)).unwrap();
    assert_eq!(&chip.memory[0x8A..0x8C], &[0, 0x0B]);
    chip.run(|d| d.dmp_enable_sensors(true, false, false)).unwrap();
    assert_eq!(&chip.memory[0x8A..0x8C], &[0, 0x02]);
    chip.run(|d| d.dmp_set_motion_event_control(true, true, true, true)).unwrap();
    assert_eq!(&chip.memory[0x4E..0x50], &[0x01, 0x07]);
    chip.run(|d| d.dmp_set_motion_event_control(false, true, false, false)).unwrap();
    assert_eq!(&chip.memory[0x4E..0x50], &[0x00, 0x02]);
}

#[test]
fn dmp_configure_sensors_sets_rates_and_features() {
    let mut chip = Chip::ready();
    chip.memory = vec![0xFF; 0x1_0000];
    chip.set(0, 0x06, 0x41);
    chip.set(0, 0x05, 0x30);
    chip.run(|d| d.dmp_configure_sensors(true)).unwrap();
    for at in [0xBEusize, 0xBA, 0xB6, 0xA8, 0x9E, 0x9A, 0x96, 0x88] {
        assert_eq!(&chip.memory[at..at + 2], &[0, 0]);
    }
    assert_eq!(chip.memory[0xAC], 0xFF);
    assert_eq!(&chip.memory[0x8A..0x8C], &[0, 0x0B]);
    assert_eq!(&chip.memory[0x4E..0x50], &[0x01, 0x07]);
    assert_eq!(chip.reg(0, 0x06), 0x21);
    assert_eq!(chip.reg(0, 0x05), 0x40);
}

#[test]
fn dmp_configure_sensors_without_magnetometer() {
    let mut chip = Chip::ready();
    chip.memory = vec![0xFF; 0x1_0000];
    chip.run(|d| d.dmp_configure_sensors(false)).unwrap();
    assert_eq!(chip.memory[0xB6], 0xFF);
    assert_eq!(&chip.memory[0xAC..0xAE], &[0, 0]);
    assert_eq!(&chip.memory[0x8A..0x8C], &[0, 0x03]);
    assert_eq!(&chip.memory[0x4E..0x50], &[0x00, 0x03]);
}

// The magnetometer.

const DONE: u8 = 0x40;

fn mag_chip() -> Chip {
    let mut chip = Chip::ready();
    chip.set(0, 0x17, DONE);
    chip.set(3, 0x17, 0x09);
    chip
}

fn counts(x: i16, y: i16, z: i16) -> MagReading {
    MagReading { x, y, z, calibration: MagCalibration::default() }
}

fn mag_config() -> MagConfig {
    MagConfig { mode: MagMode::Continuous50Hz }
}

#[test]
fn init_magnetometer_goes_through() {
    let mut chip = mag_chip();
    chip.set(0, 0x0F, 0x02);
    chip.set(0, 0x07, 0x3F);
    chip.set(0, 0x06, 0x40);
    chip.run(|d| d.init_magnetometer(mag_config(), &mut NoWait::new())).unwrap();
    assert!(chip.state().mag_initialized);
    assert_eq!(chip.state().bank, Some(Bank::Bank0));
    assert_eq!(chip.reg(0, 0x0F), 0x00);
    assert_eq!(chip.reg(0, 0x07), 0x38);
    assert_eq!(chip.reg(0, 0x06), 0x01);
    assert_eq!(chip.reg(0, 0x03), 0x20);
    assert_eq!(chip.reg(0, 0x05), 0x40);
    assert_eq!(chip.reg(3, 0x00), 0x04);
    assert_eq!(chip.reg(3, 0x01), 0x17);
    assert_eq!(chip.reg(3, 0x02), 0x00);
    assert_eq!(chip.reg(3, 0x03), 0x8C);
    assert_eq!(chip.reg(3, 0x04), 0x10);
    assert_eq!(chip.reg(3, 0x05), 0x89);
    assert_eq!(chip.reg(3, 0x13), 0x0C);
    assert_eq!(chip.reg(3, 0x14), 0x31);
    assert_eq!(chip.reg(3, 0x16), 0x06);
    assert_eq!(chip.reg(3, 0x15), 0x80);
    let pauses: Vec<Op> =
        chip.log.iter().copied().filter(|op| matches!(op, Op::P(_))).collect();
    assert_eq!(
        pauses,
        vec![
            MS(1),
            MS(10),
            MS(1),
            MS(50),
            MS(50),
            MS(10),
            MS(10),
            MS(10),
            MS(1),
            MS(100),
            MS(1),
            MS(10),
            MS(1),
            MS(10),
            MS(10),
        ]
    );
}

#[test]
fn init_magnetometer_tries_again() {
    let mut chip = mag_chip();
    chip.queue(3, 0x17, &[0x00, 0x55, 0x09]);
    chip.run(|d| d.init_magnetometer(mag_config(), &mut NoWait::new())).unwrap();
    assert!(chip.state().mag_initialized);
    let questions = chip.log.iter().filter(|op| **op == Op::R(3, 0x17, 1)).count();
    assert_eq!(questions, 3);
    let resets = chip.log.iter().filter(|op| **op == Op::W(0, 0x03, 0x02)).count();
    assert_eq!(resets, 3);
}

#[test]
fn init_magnetometer_gives_up_after_five_questions() {
    let mut chip = mag_chip();
    chip.set(3, 0x17, 0x48);
    let result = chip.run(|d| d.init_magnetometer(mag_config(), &mut NoWait::new()));
    assert!(matches!(result, Err(Error::Magnetometer)));
    assert!(!chip.state().mag_initialized);
    let questions = chip.log.iter().filter(|op| **op == Op::R(3, 0x17, 1)).count();
    assert_eq!(questions, 5);
    let result = chip.run(|d| d.read_magnetometer_raw());
    assert!(matches!(result, Err(Error::Magnetometer)));
    let result = chip.run(|d| d.read_magnetometer());
    assert!(matches!(result, Err(Error::Magnetometer)));
}

#[test]
fn init_magnetometer_takes_the_fifth_answer() {
    let mut chip = mag_chip();
    chip.queue(3, 0x17, &[0x00, 0x55, 0x08, 0x48, 0x09]);
    chip.run(|d| d.init_magnetometer(mag_config(), &mut NoWait::new())).unwrap();
    assert!(chip.state().mag_initialized);
    let questions = chip.log.iter().filter(|op| **op == Op::R(3, 0x17, 1)).count();
    assert_eq!(questions, 5);
    assert_eq!(chip.reg(3, 0x03), 0x8C);
    assert_eq!(chip.reg(3, 0x04), 0x10);
    assert_eq!(chip.reg(3, 0x05), 0x89);
    assert_eq!(chip.reg(0, 0x05), 0x40);
    chip.run(|d| d.read_magnetometer_raw()).unwrap();
}

#[test]
fn init_magnetometer_passes_over_a_failed_question() {
    let mut chip = mag_chip();
    // The reset is acknowledged, the first question is not.
    chip.queue(0, 0x17, &[0x00, DONE, 0x00, 0x10]);
    chip.run(|d| d.init_magnetometer(mag_config(), &mut NoWait::new())).unwrap();
    assert!(chip.state().mag_initialized);
    let questions = chip.log.iter().filter(|op| **op == Op::R(3, 0x17, 1)).count();
    assert_eq!(questions, 1);
}

#[test]
fn init_magnetometer_needs_the_master() {
    let mut chip = mag_chip();
    chip.queue(0, 0x03, &[0; 20]);
    let result = chip.run(|d| d.init_magnetometer(mag_config(), &mut NoWait::new()));
    assert!(matches!(result, Err(Error::Magnetometer)));
    let attempts = chip.log.iter().filter(|op| **op == Op::W(0, 0x03, 0x20)).count();
    assert_eq!(attempts, 5);
    assert!(!chip.state().mag_initialized);
}

#[test]
fn a_transfer_that_is_not_acknowledged_fails() {
    for status in [0x10u8, 0x20, 0x50, 0x60] {
        let mut chip = mag_chip();
        chip.set(0, 0x17, status);
        let result = chip.run(|d| d.magnetometer_self_test(&mut NoWait::new()));
        assert!(matches!(result, Err(Error::Magnetometer)));
    }
}

#[test]
fn a_transfer_that_never_ends_is_given_up() {
    let mut chip = mag_chip();
    chip.set(0, 0x17, 0x00);
    let result = chip.run(|d| d.magnetometer_self_test(&mut NoWait::new()));
    assert!(matches!(result, Err(Error::Magnetometer)));
    let polls = chip.log.iter().filter(|op| **op == Op::R(0, 0x17, 1)).count();
    let pauses = chip.log.iter().filter(|op| **op == MS(1)).count();
    assert_eq!(polls, 1 + 52);
    assert_eq!(pauses, 1 + 51);
}

fn measuring_chip(bytes: &[u8]) -> Chip {
    let mut chip = mag_chip();
    chip.state = Some(State { mag_initialized: true, ..chip.state() });
    for (i, byte) in bytes.iter().enumerate() {
        chip.set(0, 0x3B + i as u8, *byte);
    }
    chip
}

#[test]
fn the_magnetometer_is_low_byte_first() {
    let mut chip = measuring_chip(&[0x01, 0x02, 0x01, 0xFE, 0xFF, 0x00, 0x80, 0x00, 0x00]);
    assert_eq!(
        chip.run(|d| d.read_magnetometer()).unwrap(),
        counts(258, -2, -32768)
    );
    assert_eq!(chip.log.len(), 9);
    assert_eq!(chip.log[8], Op::R(0, 0x43, 1));
    chip.log.clear();
    assert_eq!(chip.run(|d| d.read_magnetometer_raw()).unwrap(), (258, -2, -32768));
    assert_eq!(chip.log.len(), 8);
    assert!(chip.run(|d| d.magnetometer_data_ready()).unwrap());
}

#[test]
fn a_magnetometer_reading_carries_the_calibration() {
    let mut chip = measuring_chip(&[0, 5, 0, 6, 0, 7, 0, 0, 0]);
    let calibration = MagCalibration {
        offset_x_bits: 1.5f32.to_bits(),
        scale_z_bits: 0.5f32.to_bits(),
        ..MagCalibration::default()
    };
    chip.state = Some(State { mag_calibration: calibration, ..chip.state() });
    let reading = chip.run(|d| d.read_magnetometer()).unwrap();
    assert_eq!(reading, MagReading { x: 5, y: 6, z: 7, calibration });
    let reading = chip.run(|d| d.read_magnetometer_nonblocking()).unwrap();
    assert_eq!(reading.calibration, calibration);
}

#[test]
fn an_overflow_of_the_magnetometer_is_an_error() {
    let mut chip = measuring_chip(&[0, 1, 0, 1, 0, 1, 0, 0x08, 0]);
    assert!(matches!(chip.run(|d| d.read_magnetometer()), Err(Error::Magnetometer)));
    assert!(matches!(chip.run(|d| d.read_magnetometer_raw()), Err(Error::Magnetometer)));
    assert!(!chip.run(|d| d.magnetometer_data_ready()).unwrap());
}

#[test]
fn a_magnetometer_that_was_not_set_up_is_not_read() {
    let mut chip = Chip::ready();
    assert!(matches!(chip.run(|d| d.read_magnetometer()), Err(Error::Magnetometer)));
    assert!(matches!(chip.run(|d| d.read_magnetometer_raw()), Err(Error::Magnetometer)));
    assert!(!chip.run(|d| d.magnetometer_data_ready()).unwrap());
    assert!(chip.log.is_empty());
}

#[test]
fn the_magnetometer_self_test_wants_a_reading() {
    let mut chip = measuring_chip(&[0, 5, 0, 0, 0, 0, 0, 0, 0]);
    assert!(chip.run(|d| d.magnetometer_self_test(&mut NoWait::new())).unwrap());
    assert_eq!(chip.reg(3, 0x04), 0x11);
    assert_eq!(chip.reg(3, 0x16), 0x08);
    let mut chip = measuring_chip(&[0; 9]);
    assert!(!chip.run(|d| d.magnetometer_self_test(&mut NoWait::new())).unwrap());
    let mut chip = measuring_chip(&[0, 0xFF, 0x7F, 1, 0, 1, 0, 0, 0]);
    assert!(!chip.run(|d| d.magnetometer_self_test(&mut NoWait::new())).unwrap());
    let mut chip = measuring_chip(&[0, 0xFE, 0x7F, 0x02, 0x80, 1, 0, 0, 0]);
    assert!(chip.run(|d| d.magnetometer_self_test(&mut NoWait::new())).unwrap());
    let mut chip = measuring_chip(&[0, 1, 0, 1, 0, 0x01, 0x80, 0, 0]);
    assert!(!chip.run(|d| d.magnetometer_self_test(&mut NoWait::new())).unwrap());
}

#[test]
fn samples_are_ten_milliseconds_apart() {
    let mut chip = measuring_chip(&[0, 5, 0, 6, 0, 7, 0, 0, 0]);
    let samples = chip.run(|d| d.sample_magnetometer(3, &mut NoWait::new())).unwrap();
    assert_eq!(samples, vec![counts(5, 6, 7); 3]);
    assert_eq!(chip.log.iter().filter(|op| **op == MS(10)).count(), 3);
    assert_eq!(
        chip.run(|d| d.sample_magnetometer(0, &mut NoWait::new())).unwrap(),
        Vec::<MagReading>::new()
    );
}

#[test]
fn the_magnetometer_serves_the_processor() {
    let mut chip = mag_chip();
    chip.run(|d| d.dmp_init_magnetometer(&mut NoWait::new())).unwrap();
    assert!(chip.state().mag_initialized);
    assert_eq!(chip.reg(0, 0x03), 0x20);
    assert_eq!(chip.reg(0, 0x05), 0x40);
    assert_eq!(chip.reg(3, 0x01), 0x07);
    assert_eq!(chip.reg(3, 0x03), 0x8C);
    assert_eq!(chip.reg(3, 0x04), 0x03);
    assert_eq!(chip.reg(3, 0x05), 0xDA);
    assert_eq!(chip.reg(3, 0x07), 0x0C);
    assert_eq!(chip.reg(3, 0x08), 0x31);
    assert_eq!(chip.reg(3, 0x0A), 0x01);
    assert_eq!(chip.reg(3, 0x09), 0x81);
    assert_eq!(chip.reg(3, 0x00), 0x04);
    assert_eq!(*chip.log.last().unwrap(), MS(50));
}

#[test]
fn a_silent_magnetometer_turns_the_master_off() {
    let mut chip = mag_chip();
    chip.set(3, 0x17, 0x00);
    let result = chip.run(|d| d.dmp_init_magnetometer(&mut NoWait::new()));
    assert!(matches!(result, Err(Error::Magnetometer)));
    assert_eq!(chip.reg(0, 0x03), 0x00);
    assert!(!chip.state().mag_initialized);
}

#[test]
fn calibrations_are_kept() {
    let mut driver = Icm20948Driver::resume(Transcript::new(vec![], 0), fresh_state());
    let mag = MagCalibration { offset_x_bits: 7, ..MagCalibration::default() };
    driver.set_magnetometer_calibration(mag);
    assert_eq!(driver.magnetometer_calibration(), mag);
    let accel = AccelCalibration::offsets(1, 2, 3);
    driver.set_accelerometer_calibration(accel);
    assert_eq!(driver.accelerometer_calibration(), accel);
    let gyro = GyroCalibration::offsets(4, 5, 6);
    driver.set_gyroscope_calibration(gyro);
    assert_eq!(driver.gyroscope_calibration(), gyro);
    assert_eq!(driver.magnetometer_calibration(), mag);
    assert_eq!(MagCalibration::default().scale_x_bits, 1.0f32.to_bits());
    assert_eq!(AccelCalibration::default().scale_z_bits, 1.0f32.to_bits());
}

// Accelerometer and gyroscope.

#[test]
fn accelerometer_settings_read_back() {
    let mut chip = Chip::ready();
    chip.set(0, 0x05, 0x70);
    chip.set(2, 0x14, 0xC0);
    let config = AccelConfig {
        full_scale: AccelFullScale::G8,
        dlpf: AccelDlpf::Hz24,
        dlpf_enable: true,
        sample_rate_div: 0x0ABC,
    };
    chip.run(|d| d.configure_accelerometer(config)).unwrap();
    assert_eq!(chip.reg(0, 0x05), 0x50);
    assert_eq!(chip.reg(2, 0x14), 0xC0 | 0x20 | 0x04 | 0x01);
    assert_eq!(chip.reg(2, 0x10), 0x0A);
    assert_eq!(chip.reg(2, 0x11), 0xBC);
    assert_eq!(chip.state().accel_config, config);
    assert_eq!(chip.run(|d| d.read_bank2_accel_config()).unwrap(), (0x25, 0x0A, 0xBC));
    assert_eq!(chip.state().bank, Some(Bank::Bank0));
}

#[test]
fn the_divider_has_twelve_bits() {
    let mut chip = Chip::ready();
    let config = AccelConfig { sample_rate_div: 0xFABC, ..AccelConfig::default() };
    chip.run(|d| d.configure_accelerometer(config)).unwrap();
    assert_eq!(chip.reg(2, 0x10), 0x0A);
}

#[test]
fn settings_are_remembered_once_written() {
    let mut chip = Chip::ready();
    let config = AccelConfig { full_scale: AccelFullScale::G16, ..AccelConfig::default() };
    // The last access, which selects bank 0 again, is refused.
    chip.refuse = vec![7];
    assert!(chip.run(|d| d.configure_accelerometer(config)).is_err());
    assert_eq!(chip.state().accel_config, config);
    assert_eq!(chip.state().bank, Some(Bank::Bank2));
    let mut chip = Chip::ready();
    chip.refuse = vec![6];
    assert!(chip.run(|d| d.configure_accelerometer(config)).is_err());
    assert_eq!(chip.state().accel_config, AccelConfig::default());
}

#[test]
fn gyroscope_settings_read_back() {
    let mut chip = Chip::ready();
    chip.set(0, 0x05, 0x70);
    let config = GyroConfig {
        full_scale: GyroFullScale::Dps2000,
        dlpf: GyroDlpf::Hz361,
        dlpf_enable: false,
        sample_rate_div: 10,
    };
    chip.run(|d| d.configure_gyroscope(config)).unwrap();
    assert_eq!(chip.reg(0, 0x05), 0x60);
    assert_eq!(chip.reg(2, 0x01), 0x38 | 0x06);
    assert_eq!(chip.reg(2, 0x00), 10);
    assert_eq!(chip.state().gyro_config, config);
    assert_eq!(chip.run(|d| d.read_bank2_gyro_config()).unwrap(), (0x3E, 10));
}

fn put_axes(chip: &mut Chip, first: u8, samples: &[(i16, i16, i16)]) {
    for (x, y, z) in samples {
        for (i, value) in [x, y, z].iter().enumerate() {
            let bytes = value.to_be_bytes();
            chip.queue(0, first + 2 * i as u8, &bytes[..1]);
            chip.queue(0, first + 2 * i as u8 + 1, &bytes[1..]);
        }
    }
}

#[test]
fn accelerometer_calibration_takes_one_g_off() {
    let mut chip = Chip::ready();
    put_axes(&mut chip, 0x2D, &[(10, -7, 16400), (11, -8, 16401), (12, -8, 16402)]);
    let calibration = chip.run(|d| d.calibrate_accelerometer(3)).unwrap();
    assert_eq!(calibration, AccelCalibration::offsets(11, -7, 17));
    assert_eq!(chip.state().accel_calibration, calibration);
    put_axes(&mut chip, 0x2D, &[(11, -7, 16401)]);
    let reading = chip.run(|d| d.read_accelerometer()).unwrap();
    assert_eq!((reading.x, reading.y, reading.z), (0, 0, 16384));
    assert_eq!(reading.full_scale.sensitivity(), 16384);
    assert_eq!(reading.scale_x_bits, 1.0f32.to_bits());
}

#[test]
fn accelerometer_calibration_notices_motion() {
    let mut chip = Chip::ready();
    // 16384 / 20 is 819.
    put_axes(&mut chip, 0x2D, &[(0, 0, 0), (819, 0, 0)]);
    assert!(chip.run(|d| d.calibrate_accelerometer(2)).is_ok());
    let before = chip.state();
    put_axes(&mut chip, 0x2D, &[(0, 0, 0), (0, 820, 0)]);
    let result = chip.run(|d| d.calibrate_accelerometer(2));
    assert!(matches!(result, Err(Error::DeviceMoving)));
    assert_eq!(chip.state(), before);
}

#[test]
fn a_negative_divisor_finds_motion_everywhere() {
    let mut chip = Chip::ready();
    put_axes(&mut chip, 0x2D, &[(0, 0, 0)]);
    let result = chip.run(|d| d.calibrate_accelerometer_with_threshold(1, -20));
    assert!(matches!(result, Err(Error::DeviceMoving)));
}

#[test]
fn a_calibration_needs_samples() {
    let mut chip = Chip::ready();
    assert!(matches!(chip.run(|d| d.calibrate_accelerometer(0)), Err(Error::InvalidConfig)));
    assert!(matches!(chip.run(|d| d.calibrate_gyroscope(0)), Err(Error::InvalidConfig)));
    assert!(chip.log.is_empty());
}

#[test]
fn the_z_offset_saturates() {
    let mut chip = Chip::ready();
    put_axes(&mut chip, 0x2D, &[(0, 0, -32768)]);
    let calibration = chip.run(|d| d.calibrate_accelerometer(1)).unwrap();
    assert_eq!(calibration.offset_z, -32768);
}

#[test]
fn a_calibration_ends_with_the_first_failure() {
    let mut chip = Chip::ready();
    put_axes(&mut chip, 0x2D, &[(0, 0, 0), (0, 0, 0)]);
    chip.refuse = vec![1];
    let result = chip.run(|d| d.calibrate_accelerometer(2));
    assert!(matches!(result, Err(Error::Bus(Stop::Refused(1)))));
    assert_eq!(chip.state().accel_calibration, AccelCalibration::default());
}

#[test]
fn gyroscope_calibration_averages() {
    let mut chip = Chip::ready();
    // 131 / 20 is 6.
    put_axes(&mut chip, 0x33, &[(1, -5, 100), (4, -8, 106)]);
    let calibration = chip.run(|d| d.calibrate_gyroscope(2)).unwrap();
    assert_eq!(calibration, GyroCalibration::offsets(2, -6, 103));
    put_axes(&mut chip, 0x33, &[(3, -6, 0)]);
    let reading = chip.run(|d| d.read_gyroscope()).unwrap();
    assert_eq!((reading.x, reading.y, reading.z), (1, 0, -103));
    assert_eq!(reading.full_scale, GyroFullScale::Dps250);
}

#[test]
fn a_resting_gyroscope_reads_zero() {
    let mut chip = Chip::ready();
    put_axes(&mut chip, 0x33, &[(40, -41, 42); 5]);
    chip.run(|d| d.calibrate_gyroscope(4)).unwrap();
    let reading = chip.run(|d| d.read_gyroscope()).unwrap();
    assert_eq!((reading.x, reading.y, reading.z), (0, 0, 0));
}

#[test]
fn extreme_samples_average_within_range() {
    let mut chip = Chip::ready();
    put_axes(&mut chip, 0x33, &[(-32768, 32767, -1); 3]);
    let calibration = chip.run(|d| d.calibrate_gyroscope(3)).unwrap();
    assert_eq!(calibration, GyroCalibration::offsets(-32768, 32767, -1));
}

#[test]
fn equal_samples_show_no_motion_and_a_stricter_divisor_finds_more() {
    for divisor in [1i16, 20, 32767] {
        let mut chip = Chip::ready();
        put_axes(&mut chip, 0x2D, &[(5, 6, 7); 3]);
        assert!(chip.run(|d| d.calibrate_accelerometer_with_threshold(3, divisor)).is_ok());
    }
    let mut moved = Vec::new();
    for divisor in [10i16, 20, 33, 100] {
        let mut chip = Chip::ready();
        put_axes(&mut chip, 0x2D, &[(0, 0, 0), (600, 0, 0)]);
        let result = chip.run(|d| d.calibrate_accelerometer_with_threshold(2, divisor));
        moved.push(matches!(result, Err(Error::DeviceMoving)));
    }
    assert_eq!(moved, vec![false, false, true, true]);
}

#[test]
fn gyroscope_calibration_looks_for_motion() {
    let mut chip = Chip::ready();
    put_axes(&mut chip, 0x33, &[(0, 0, 0), (7, 0, 0)]);
    assert!(matches!(chip.run(|d| d.calibrate_gyroscope(2)), Err(Error::DeviceMoving)));
    // 131 / 50 is 2, and 131 / 100 is 1.
    put_axes(&mut chip, 0x33, &[(0, 0, 0), (3, 0, 0)]);
    let result = chip.run(|d| d.calibrate_gyroscope_with_threshold(2, 50));
    assert!(matches!(result, Err(Error::DeviceMoving)));
    put_axes(&mut chip, 0x33, &[(0, 0, 0), (1000, 0, 0)]);
    let result = chip.run(|d| d.calibrate_gyroscope_with_threshold(2, 100));
    assert!(matches!(result, Err(Error::DeviceMoving)));
    assert_eq!(chip.state().gyro_calibration, GyroCalibration::default());
    put_axes(&mut chip, 0x33, &[(6, 0, 0), (7, 0, 0)]);
    let calibration = chip.run(|d| d.calibrate_gyroscope_with_threshold(2, 100)).unwrap();
    assert_eq!(calibration.offset_x, 6);
}

#[test]
fn the_accelerometer_self_test_measures_the_response() {
    let mut chip = Chip::ready();
    let config = AccelConfig { full_scale: AccelFullScale::G4, ..AccelConfig::default() };
    chip.run(|d| d.configure_accelerometer(config)).unwrap();
    chip.log.clear();
    put_axes(&mut chip, 0x2D, &[(0, 0, 1000), (226, -226, 774)]);
    assert!(chip.run(|d| d.accelerometer_self_test(&mut NoWait::new())).unwrap());
    assert_eq!(chip.state().accel_config, config);
    assert_eq!(chip.reg(2, 0x14), 0x0B);
    assert_eq!(chip.reg(2, 0x15), 0x00);
    assert!(chip.log.contains(&Op::W(2, 0x15, 0x1C)));
    assert!(chip.log.contains(&Op::W(2, 0x14, 0x09)));
    assert!(chip.log.contains(&MS(20)));
    put_axes(&mut chip, 0x2D, &[(0, 0, 0), (226, 225, 226)]);
    assert!(!chip.run(|d| d.accelerometer_self_test(&mut NoWait::new())).unwrap());
    put_axes(&mut chip, 0x2D, &[(0, 32767, 0), (-32768, -32768, 226)]);
    assert!(chip.run(|d| d.accelerometer_self_test(&mut NoWait::new())).unwrap());
}

#[test]
fn the_gyroscope_self_test_measures_the_response() {
    let mut chip = Chip::ready();
    put_axes(&mut chip, 0x33, &[(0, 0, 0), (61, -61, 61)]);
    assert!(chip.run(|d| d.gyroscope_self_test(&mut NoWait::new())).unwrap());
    assert!(chip.log.contains(&Op::W(2, 0x02, 0x38)));
    assert_eq!(chip.reg(2, 0x02), 0x00);
    put_axes(&mut chip, 0x33, &[(0, 0, 0), (61, -60, 61)]);
    assert!(!chip.run(|d| d.gyroscope_self_test(&mut NoWait::new())).unwrap());
}

// The FIFO.

#[test]
fn fifo_settings_are_bits() {
    let mut chip = Chip::ready();
    let config = FifoConfigAdvanced {
        enable_slv0: true,
        enable_slv1: false,
        enable_slv2: true,
        enable_slv3: true,
        enable_accel: true,
        enable_gyro_x: true,
        enable_gyro_y: false,
        enable_gyro_z: true,
        enable_temp: true,
        mode: FifoMode::Snapshot,
    };
    chip.run(|d| d.fifo_configure_advanced(&config)).unwrap();
    assert_eq!(
        chip.log,
        vec![Op::W(0, 0x66, 0x0D), Op::W(0, 0x67, 0x1B), Op::W(0, 0x69, 0x1F)]
    );
    chip.log.clear();
    let simple = FifoConfig {
        enable_accel: false,
        enable_gyro: true,
        enable_temp: false,
        mode: FifoMode::Stream,
    };
    chip.run(|d| d.fifo_configure(&simple)).unwrap();
    assert_eq!(
        chip.log,
        vec![Op::W(0, 0x66, 0x00), Op::W(0, 0x67, 0x0E), Op::W(0, 0x69, 0x00)]
    );
}

#[test]
fn fifo_reset_sets_and_clears() {
    let mut chip = Chip::ready();
    chip.run(|d| d.fifo_reset()).unwrap();
    assert_eq!(chip.log, vec![Op::W(0, 0x68, 0x1F), Op::W(0, 0x68, 0x00)]);
}

#[test]
fn fifo_read_takes_what_waits() {
    let mut chip = Chip::ready();
    chip.fifo.extend([1u8, 2, 3]);
    let read = |d: &mut Driver| {
        let mut buffer = [9u8; 5];
        let n = d.fifo_read(&mut buffer)?;
        Ok((n, buffer))
    };
    assert_eq!(chip.run(read).unwrap(), (3, [1, 2, 3, 9, 9]));
    assert_eq!(chip.log.len(), 2 + 3);
    chip.fifo.extend([1u8, 2, 3, 4, 5, 6]);
    assert_eq!(chip.run(read).unwrap(), (5, [1, 2, 3, 4, 5]));
    assert_eq!(chip.fifo.len(), 1);
}

#[test]
fn fifo_records_come_from_the_parser() {
    let driver = Icm20948Driver::resume(Transcript::new(vec![], 0), fresh_state());
    let config = FifoConfigAdvanced::from(FifoConfig {
        enable_accel: true,
        enable_gyro: false,
        enable_temp: false,
        mode: FifoMode::Stream,
    });
    let parse = |data: &[u8], config: &FifoConfigAdvanced| {
        let mut records: heapless::Vec<u8, MAX_RECORDS> = heapless::Vec::new();
        for byte in data {
            if *byte == 0xFF {
                return Err(ParseError::Malformed);
            }
            if records.push(*byte + config.enable_accel as u8).is_err() {
                return Err(ParseError::Overflow);
            }
        }
        Ok(records)
    };
    let records = driver.fifo_parse(&[1, 2, 3], &config, parse).unwrap();
    assert_eq!(records.as_slice(), &[2, 3, 4]);
    assert_eq!(driver.fifo_parse(&[0; 64], &config, parse).unwrap().len(), 64);
    let result = driver.fifo_parse(&[0; 65], &config, parse);
    assert!(matches!(result, Err(Error::FifoOverflow)));
    let result = driver.fifo_parse(&[0, 0xFF], &config, parse);
    assert!(matches!(result, Err(Error::InvalidConfig)));
}

#[test]
fn fifo_overflows_are_bits() {
    let mut chip = Chip::ready();
    chip.set(0, 0x1B, 0xF5);
    let status = chip.run(|d| d.fifo_overflow_status()).unwrap();
    assert_eq!(
        [status.fifo0, status.fifo1, status.fifo2, status.fifo3, status.fifo4],
        [true, false, true, false, true]
    );
}

// Interrupts.

#[test]
fn the_interrupt_pin_has_four_bits() {
    let mut chip = Chip::ready();
    chip.set(0, 0x0F, 0xFF);
    let config = InterruptPinConfig {
        active_low: true,
        open_drain: false,
        latch_enabled: true,
        clear_on_any_read: true,
    };
    chip.run(|d| d.configure_interrupt_pin(&config)).unwrap();
    assert_eq!(chip.log, vec![Op::W(0, 0x0F, 0xB0)]);
}

#[test]
fn interrupt_sources_go_into_four_registers() {
    let mut chip = Chip::ready();
    let config = InterruptConfig {
        raw_data_ready: true,
        fifo_overflow: false,
        fifo_watermark: true,
        wake_on_motion: true,
        dmp: false,
        i2c_master: true,
        pll_ready: true,
    };
    chip.run(|d| d.configure_interrupts(&config)).unwrap();
    assert_eq!(
        chip.log,
        vec![
            Op::W(0, 0x10, 0x0D),
            Op::W(0, 0x11, 0x01),
            Op::W(0, 0x12, 0x00),
            Op::W(0, 0x13, 0x1F),
        ]
    );
}

#[test]
fn interrupt_status_comes_from_four_registers() {
    let mut chip = Chip::ready();
    chip.set(0, 0x19, 0x0A);
    chip.set(0, 0x1A, 0x01);
    chip.set(0, 0x1B, 0xE0);
    chip.set(0, 0x1C, 0x04);
    let status = chip.run(|d| d.read_interrupt_status()).unwrap();
    assert!(status.raw_data_ready);
    assert!(!status.fifo_overflow);
    assert!(status.fifo_watermark);
    assert!(status.wake_on_motion);
    assert!(status.dmp);
    assert!(!status.i2c_master);
    assert!(!status.pll_ready);
}

#[test]
fn data_ready_and_motion_share_a_register() {
    let mut chip = Chip::ready();
    chip.set(0, 0x74, 0x2A);
    let ready = chip.run(|d| d.read_data_ready_status()).unwrap();
    assert_eq!(
        [ready.sensor0_ready, ready.sensor1_ready, ready.sensor2_ready, ready.sensor3_ready],
        [false, true, false, true]
    );
    let motion = chip.run(|d| d.read_wom_status()).unwrap();
    assert_eq!([motion.x_motion, motion.y_motion, motion.z_motion], [false, true, false]);
}

// Power.

#[test]
fn the_power_mode_reads_back() {
    for mode in [PowerMode::Normal, PowerMode::LowPower, PowerMode::Sleep] {
        for before in [0x00u8, 0xFF, 0x60, 0x21] {
            let mut chip = Chip::ready();
            chip.set(0, 0x06, before);
            chip.run(|d| d.set_power_mode(mode, &mut NoWait::new())).unwrap();
            assert_eq!(*chip.log.last().unwrap(), MS(1));
            let status = chip.run(|d| d.read_power_status()).unwrap();
            assert_eq!(status.mode, mode);
            assert_eq!(chip.reg(0, 0x06) & 0x9F, before & 0x9F);
        }
    }
}

#[test]
fn sleep_keeps_the_low_power_bit() {
    let mut chip = Chip::ready();
    chip.set(0, 0x06, 0x29);
    chip.run(|d| d.set_power_mode(PowerMode::Sleep, &mut NoWait::new())).unwrap();
    let status = chip.run(|d| d.read_power_status()).unwrap();
    assert!(status.sleep && status.low_power && status.temp_disabled);
}

fn low_power(enable_wake_on_motion: bool) -> LowPowerConfig {
    LowPowerConfig {
        accel_rate: LowPowerRate { divider: 34 },
        enable_wake_on_motion,
        wom_threshold: 20,
        wom_mode: WomMode::ComparePrevious,
    }
}

#[test]
fn low_power_keeps_only_the_accelerometer() {
    let mut chip = Chip::ready();
    let config = AccelConfig { full_scale: AccelFullScale::G4, ..AccelConfig::default() };
    chip.run(|d| d.configure_accelerometer(config)).unwrap();
    chip.log.clear();
    chip.set(0, 0x06, 0x41);
    chip.run(|d| d.enter_low_power_mode(&low_power(true), &mut NoWait::new())).unwrap();
    assert_eq!(
        chip.log,
        vec![
            BANK2,
            Op::W(2, 0x13, 20),
            Op::W(2, 0x12, 0x03),
            Op::W(2, 0x10, 0),
            Op::W(2, 0x11, 34),
            Op::W(2, 0x14, 0x3B),
            Op::W(2, 0x15, 0x00),
            BANK0,
            Op::W(0, 0x07, 0x07),
            Op::R(0, 0x06, 1),
            Op::W(0, 0x06, 0x21),
            Op::R(0, 0x05, 1),
            Op::W(0, 0x05, 0x20),
            MS(1),
            Op::R(0, 0x19, 1),
            Op::R(0, 0x1A, 1),
            Op::R(0, 0x1B, 1),
            Op::R(0, 0x1C, 1),
            MS(1),
            Op::R(0, 0x10, 1),
            Op::W(0, 0x10, 0x08),
        ]
    );
    chip.run(|d| d.exit_low_power_mode()).unwrap();
    assert_eq!(chip.reg(0, 0x06), 0x01);
    assert_eq!(chip.reg(0, 0x05), 0x00);
    assert_eq!(chip.reg(2, 0x14), 0x0B);
    assert_eq!(chip.state().bank, Some(Bank::Bank0));
}

#[test]
fn low_power_without_motion() {
    let mut chip = Chip::ready();
    chip.run(|d| d.enter_low_power_mode(&low_power(false), &mut NoWait::new())).unwrap();
    assert_eq!(*chip.log.last().unwrap(), MS(1));
    assert!(!chip.log.contains(&Op::R(0, 0x19, 1)));
}

#[test]
fn pending_interrupts_may_fail_to_be_read() {
    let mut chip = Chip::ready();
    // The accesses before the interrupt status are 13.
    chip.refuse = vec![13];
    chip.run(|d| d.enter_low_power_mode(&low_power(true), &mut NoWait::new())).unwrap();
    assert_eq!(chip.reg(0, 0x10), 0x08);
    assert!(!chip.log.contains(&Op::R(0, 0x1A, 1)));
}

#[test]
fn cycle_modes_read_back() {
    let mut chip = Chip::ready();
    let config = CycleConfig {
        enable_accel_cycle: true,
        enable_gyro_cycle: false,
        enable_i2c_master_cycle: true,
    };
    chip.run(|d| d.configure_cycle_mode(&config)).unwrap();
    assert_eq!(chip.reg(0, 0x05), 0x60);
    let status = chip.run(|d| d.read_power_status()).unwrap();
    assert!(status.accel_cycle && !status.gyro_cycle && status.i2c_master_cycle);
    assert_eq!(status.mode, PowerMode::Normal);
    chip.set(0, 0x05, 0xF0);
    chip.run(|d| d.set_continuous_mode(true, false)).unwrap();
    assert_eq!(chip.reg(0, 0x05), 0xD0);
    chip.run(|d| d.set_continuous_mode(false, true)).unwrap();
    assert_eq!(chip.reg(0, 0x05), 0xC0);
}

#[test]
fn clock_and_temperature_sensor() {
    let mut chip = Chip::ready();
    chip.set(0, 0x06, 0x26);
    chip.run(|d| d.set_clock_source(ClockSource::AutoSelect)).unwrap();
    assert_eq!(chip.reg(0, 0x06), 0x21);
    chip.run(|d| d.set_clock_source(ClockSource::Stop)).unwrap();
    assert_eq!(chip.reg(0, 0x06), 0x27);
    chip.run(|d| d.set_clock_source(ClockSource::Internal20MHz)).unwrap();
    chip.run(|d| d.set_temperature_sensor(false)).unwrap();
    assert_eq!(chip.reg(0, 0x06), 0x28);
    chip.run(|d| d.set_temperature_sensor(true)).unwrap();
    assert_eq!(chip.reg(0, 0x06), 0x20);
}

#[test]
fn sensor_power_reads_back() {
    let mut chip = Chip::ready();
    let config = SensorPowerConfig {
        disable_accel_x: true,
        disable_accel_y: false,
        disable_accel_z: true,
        disable_gyro_x: false,
        disable_gyro_y: true,
        disable_gyro_z: true,
    };
    chip.run(|d| d.configure_sensor_power(&config)).unwrap();
    assert_eq!(chip.run(|d| d.read_pwr_mgmt_2()).unwrap(), 0x2B);
}

#[test]
fn raw_registers_are_shown() {
    let mut chip = Chip::ready();
    for (bank, address) in [(0, 0x03), (0, 0x07), (0, 0x05), (2, 0x09), (2, 0x54)] {
        chip.set(bank, address, 0xFF);
    }
    assert_eq!(chip.run(|d| d.read_user_ctrl()).unwrap(), 0xFF);
    assert_eq!(chip.run(|d| d.read_pwr_mgmt_2()).unwrap(), 0x3F);
    assert_eq!(chip.run(|d| d.read_lp_config()).unwrap(), 0x70);
    assert_eq!(chip.run(|d| d.read_bank2_odr_align()).unwrap(), 0x01);
    assert_eq!(chip.run(|d| d.read_bank2_mod_ctrl_usr()).unwrap(), 0x01);
    assert_eq!(chip.state().bank, Some(Bank::Bank0));
}

// The non-blocking forms.

#[test]
fn nonblocking_firmware_has_pauses() {
    let mut chip = Chip::ready();
    let firmware = vec![3u8; 520];
    chip.run(|d| d.dmp_load_firmware_nonblocking(&firmware, &mut NoWait::new())).unwrap();
    assert_eq!(&chip.memory[..520], firmware.as_slice());
    assert_eq!(chip.memory[520], 0);
    assert_eq!(chip.log.iter().filter(|op| **op == Op::P(Pause::Us(100))).count(), 2);
    chip.log.clear();
    chip.run(|d| d.dmp_init_nonblocking(&[1, 2], &mut NoWait::new())).unwrap();
    assert_eq!(chip.log[2], MS(1));
    assert_eq!(*chip.log.last().unwrap(), MS(2));
    assert_eq!(&chip.memory[..3], &[1, 2, 3]);
}

#[test]
fn nonblocking_configuration_leaves_the_master_alone() {
    let mut chip = Chip::ready();
    chip.set(0, 0x03, 0x20);
    let long: Vec<u8> = (1..=20).collect();
    chip.run(|d| d.dmp_configure_nonblocking(&[DmpWrite { address: 0x0210, data: &long }]))
        .unwrap();
    assert_eq!(chip.reg(0, 0x03), 0x20);
    assert_eq!(&chip.memory[0x0210..0x0224], long.as_slice());
    assert_eq!(&chip.log[..2], &[Op::W(0, 0x7E, 2), Op::W(0, 0x7C, 0x10)]);
    assert_eq!(chip.log[22], Op::W(0, 0x7E, 0));
}

#[test]
fn nonblocking_fifo_mode_is_a_number() {
    let mut chip = Chip::ready();
    let config = FifoConfig {
        enable_accel: true,
        enable_gyro: false,
        enable_temp: true,
        mode: FifoMode::Snapshot,
    };
    chip.run(|d| d.fifo_configure_nonblocking(&config)).unwrap();
    assert_eq!(
        chip.log,
        vec![Op::W(0, 0x66, 0x00), Op::W(0, 0x67, 0x11), Op::W(0, 0x69, 0x01)]
    );
}

#[test]
fn nonblocking_low_power_waits_a_millisecond() {
    let mut chip = Chip::ready();
    chip.run(|d| d.enter_low_power_mode_nonblocking(&low_power(true), &mut NoWait::new()))
        .unwrap();
    assert_eq!(
        chip.log,
        vec![
            BANK2,
            Op::W(2, 0x13, 20),
            Op::W(2, 0x12, 0x03),
            Op::W(2, 0x14, 0x01),
            Op::W(2, 0x10, 0),
            Op::W(2, 0x11, 34),
            BANK0,
            Op::W(0, 0x07, 0x07),
            Op::R(0, 0x06, 1),
            Op::W(0, 0x06, 0x20),
            Op::W(0, 0x05, 0x20),
            MS(1),
            Op::R(0, 0x19, 1),
            Op::R(0, 0x1A, 1),
            Op::R(0, 0x1B, 1),
            Op::R(0, 0x1C, 1),
            MS(10),
            Op::R(0, 0x10, 1),
            Op::W(0, 0x10, 0x08),
        ]
    );
    chip.log.clear();
    chip.run(|d| d.exit_low_power_mode_nonblocking()).unwrap();
    assert_eq!(chip.log, vec![Op::R(0, 0x06, 1), Op::W(0, 0x06, 0x00), Op::W(0, 0x05, 0x00)]);
}

#[test]
fn nonblocking_magnetometer_is_asked_once() {
    let mut chip = mag_chip();
    chip.run(|d| d.init_magnetometer_nonblocking(mag_config(), &mut NoWait::new())).unwrap();
    assert!(chip.state().mag_initialized);
    assert_eq!(chip.reg(3, 0x04), 0x11);
    assert_eq!(chip.reg(3, 0x05), 0x88);
    assert_eq!(chip.reg(3, 0x01), 0x07);
    assert_eq!(chip.reg(3, 0x16), 0x06);
    let mut chip = mag_chip();
    chip.set(3, 0x17, 0x00);
    let result =
        chip.run(|d| d.init_magnetometer_nonblocking(mag_config(), &mut NoWait::new()));
    assert!(matches!(result, Err(Error::Magnetometer)));
    assert!(!chip.state().mag_initialized);
    let result = chip.run(|d| d.read_magnetometer_raw_nonblocking());
    assert!(matches!(result, Err(Error::Magnetometer)));
}

#[test]
fn nonblocking_magnetometer_reads_from_the_first_byte() {
    let mut chip = measuring_chip(&[0x02, 0x01, 0xFE, 0xFF, 0x05, 0x00, 0x00, 0x00]);
    let expected = counts(258, -2, 5);
    assert_eq!(chip.run(|d| d.read_magnetometer_nonblocking()).unwrap(), expected);
    assert_eq!(chip.log.len(), 8);
    assert_eq!(chip.run(|d| d.read_magnetometer_raw_nonblocking()).unwrap(), (258, -2, 5));
    assert_eq!(chip.log.len(), 16);
    chip.set(0, 0x42, 0x08);
    let result = chip.run(|d| d.read_magnetometer_raw_nonblocking());
    assert!(matches!(result, Err(Error::Magnetometer)));
    chip.set(0, 0x42, 0x00);
    let samples =
        chip.run(|d| d.sample_magnetometer_nonblocking(2, &mut NoWait::new())).unwrap();
    assert_eq!(samples, vec![expected; 2]);
}

#[test]
fn nonblocking_magnetometer_self_test_gives_time() {
    let mut chip = measuring_chip(&[0, 5, 0, 0, 0, 0, 0, 0]);
    assert!(chip.run(|d| d.magnetometer_self_test_nonblocking(&mut NoWait::new())).unwrap());
    assert!(!chip.log.contains(&Op::R(0, 0x17, 1)));
    let pauses: Vec<Op> =
        chip.log.iter().copied().filter(|op| matches!(op, Op::P(_))).collect();
    assert_eq!(pauses, vec![MS(10), MS(100), MS(10), MS(10), MS(10)]);
}

#[test]
fn nonblocking_magnetometer_serves_the_processor() {
    let mut chip = mag_chip();
    chip.run(|d| d.dmp_init_magnetometer_nonblocking(&mut NoWait::new())).unwrap();
    assert!(chip.state().mag_initialized);
    assert_eq!(chip.reg(3, 0x05), 0xDA);
    assert_eq!(chip.reg(0, 0x05), 0x40);
    let mut chip = mag_chip();
    chip.set(3, 0x17, 0x00);
    let result = chip.run(|d| d.dmp_init_magnetometer_nonblocking(&mut NoWait::new()));
    assert!(matches!(result, Err(Error::Magnetometer)));
    assert_eq!(chip.reg(0, 0x03), 0x00);
    assert_eq!(chip.log.iter().filter(|op| **op == BANK3).count(), 1);
}

// Any window leads to the same accesses.

#[test]
fn the_window_does_not_matter() {
    let mut logs = Vec::new();
    for ahead in [1usize, 2, 7, 64, 1000] {
        let mut chip = mag_chip();
        chip.ahead = ahead;
        chip.run(|d| d.init_magnetometer(mag_config(), &mut NoWait::new())).unwrap();
        logs.push(chip.log);
    }
    for log in &logs[1..] {
        assert_eq!(*log, logs[0]);
    }
}
