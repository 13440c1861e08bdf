//! The parts that need no chip.

use icm20948::accelerometer::MIN_RESPONSE;
use icm20948::device::{flag, join_signed16};
use icm20948::dmp::{odr_counter, split_high_first};
use icm20948::interface::{Interface, Pause, SpiInterface};
use icm20948::registers::Register;
use icm20948::transcript::{Answer, Noted, Request, Step, Stop, Transcript};
use icm20948::{
    AccelDlpf, AccelFullScale, Bank, Error, FifoConfig, FifoConfigAdvanced, FifoMode,
    GyroDlpf, GyroFullScale, I2cInterface, MagMode, I2C_ADDRESS_AD0_HIGH, I2C_ADDRESS_AD0_LOW,
    WHO_AM_I_VALUE,
};

#[test]
fn addresses_of_the_chip() {
    assert_eq!(I2C_ADDRESS_AD0_LOW, 0x68);
    assert_eq!(I2C_ADDRESS_AD0_HIGH, 0x69);
    assert_eq!(WHO_AM_I_VALUE, 0xEA);
    assert_eq!(I2cInterface::default(7u8).address(), 0x68);
    assert_eq!(I2cInterface::alternative(7u8).address(), 0x69);
    assert_eq!(I2cInterface::new(7u8, 0x42).address(), 0x42);
    assert_eq!(I2cInterface::new(7u8, 0x42).release(), 7);
    let mut interface = SpiInterface::new(5u8);
    *interface.bus_mut() = 6;
    assert_eq!(interface.release(), 6);
}

#[test]
fn i2c_frames() {
    let mut interface = I2cInterface::default(0u8);
    *interface.bus_mut() = 1;
    assert_eq!(interface.address(), 0x68);
    assert_eq!(interface.read_frame(0x2D), vec![0x2D]);
    assert_eq!(interface.write_frame(0x06, &[0x01]), vec![0x06, 0x01]);
    assert_eq!(interface.write_frame(0x06, &[]), vec![0x06]);
    let long: Vec<u8> = (0..40).collect();
    let frame = interface.write_frame(0x7D, &long);
    assert_eq!(frame.len(), 33);
    assert_eq!(frame[0], 0x7D);
    assert_eq!(frame[32], 31);
    assert_eq!(interface.write_frame(0x7D, &long[..32]).len(), 33);
}

#[test]
fn spi_frames_carry_the_direction() {
    let interface = SpiInterface::new(0u8);
    assert_eq!(interface.read_frame(0x2D), vec![0xAD]);
    assert_eq!(interface.write_frame(0x2D, &[9]), vec![0x2D, 9]);
    assert_eq!(interface.write_frame(0xAD, &[9]), vec![0x2D, 9]);
}

#[test]
fn bank_codes() {
    let codes: Vec<u8> = [Bank::Bank0, Bank::Bank1, Bank::Bank2, Bank::Bank3]
        .iter()
        .map(|bank| bank.select_value())
        .collect();
    assert_eq!(codes, vec![0x00, 0x10, 0x20, 0x30]);
    assert_eq!(Bank::Bank3.code(), 3);
}

#[test]
fn errors_come_from_the_bus() {
    assert!(matches!(Error::from(5u8), Error::Bus(5)));
}

#[test]
fn signed_numbers_from_two_bytes() {
    assert_eq!(join_signed16(0x00, 0x00), 0);
    assert_eq!(join_signed16(0x7F, 0xFF), 32767);
    assert_eq!(join_signed16(0x80, 0x00), -32768);
    assert_eq!(join_signed16(0xFF, 0xFF), -1);
    for value in [-32768i16, -300, -1, 0, 1, 255, 256, 32767] {
        let [high, low] = value.to_be_bytes();
        assert_eq!(join_signed16(high, low), value);
    }
}

#[test]
fn unsigned_numbers_as_two_bytes() {
    assert_eq!(split_high_first(0x1234), [0x12, 0x34]);
    assert_eq!(split_high_first(0xFFFF), [0xFF, 0xFF]);
    assert_eq!(split_high_first(255), [0, 255]);
}

#[test]
fn flags() {
    assert_eq!(flag(0x1E, true), 0x1E);
    assert_eq!(flag(0x1E, false), 0);
}

#[test]
fn codes_of_settings() {
    assert_eq!(AccelFullScale::G2.code(), 0);
    assert_eq!(AccelFullScale::G16.code(), 3);
    assert_eq!(
        [AccelFullScale::G2, AccelFullScale::G4, AccelFullScale::G8, AccelFullScale::G16]
            .map(|scale| scale.sensitivity()),
        [16384, 8192, 4096, 2048]
    );
    assert_eq!(AccelDlpf::Hz246.code(), 1);
    assert_eq!(AccelDlpf::Hz473.code(), 7);
    assert_eq!(
        [
            GyroFullScale::Dps250,
            GyroFullScale::Dps500,
            GyroFullScale::Dps1000,
            GyroFullScale::Dps2000
        ]
        .map(|scale| scale.sensitivity()),
        [131, 65, 32, 16]
    );
    assert_eq!(GyroDlpf::Hz197.code(), 0);
    assert_eq!(GyroDlpf::Hz361.code(), 7);
    assert_eq!(MagMode::Continuous100Hz.code(), 0x08);
    assert_eq!(MagMode::Single.code(), 0x01);
    assert_eq!(FifoMode::Snapshot.code(), 0x1F);
    assert_eq!(MIN_RESPONSE, 225);
}

#[test]
fn simple_fifo_settings_expand() {
    let advanced = FifoConfigAdvanced::from(FifoConfig {
        enable_accel: true,
        enable_gyro: true,
        enable_temp: false,
        mode: FifoMode::Snapshot,
    });
    assert!(advanced.enable_accel);
    assert!(advanced.enable_gyro_x && advanced.enable_gyro_y && advanced.enable_gyro_z);
    assert!(!advanced.enable_temp);
    assert!(!advanced.enable_slv0 && !advanced.enable_slv1);
    assert!(!advanced.enable_slv2 && !advanced.enable_slv3);
    assert_eq!(advanced.mode, FifoMode::Snapshot);
}

#[test]
fn counters_of_output_rates() {
    assert_eq!(odr_counter(0x00A8), Some(0x0088));
    assert_eq!(odr_counter(0x00AC), Some(0x008C));
    assert_eq!(odr_counter(0x00BE), Some(0x009E));
    assert_eq!(odr_counter(0x00BA), Some(0x009A));
    assert_eq!(odr_counter(0x00B6), Some(0x0096));
    assert_eq!(odr_counter(0x00B8), Some(0x0098));
    assert_eq!(odr_counter(0x00B4), Some(0x0094));
    assert_eq!(odr_counter(0x0000), None);
}

#[test]
fn registers_have_addresses() {
    assert_eq!(Register::RegBankSel.address(), 0x7F);
    assert_eq!(Register::MemRW.address(), 0x7D);
    assert_eq!(Register::I2cSlv4Di.address(), 0x17);
    assert_eq!(Register::AccelConfig.address(), 0x14);
}

#[test]
fn addresses_tell_registers_of_a_bank_apart() {
    let configuration = [
        Register::GyroSmplrtDiv,
        Register::GyroConfig1,
        Register::GyroConfig2,
        Register::OdrAlignEn,
        Register::AccelSmplrtDiv1,
        Register::AccelSmplrtDiv2,
        Register::AccelIntelCtrl,
        Register::AccelWomThr,
        Register::AccelConfig,
        Register::AccelConfig2,
        Register::PrgmStartAddrH,
        Register::PrgmStartAddrL,
        Register::ModCtrlUsr,
    ];
    for a in configuration {
        for b in configuration {
            assert_eq!(a == b, a.address() == b.address());
        }
    }
}

#[test]
fn a_transcript_answers_what_it_knows() {
    let answers = vec![
        Answer { data: vec![1, 2], carried_out: true },
        Answer { data: vec![], carried_out: false },
    ];
    let mut transcript = Transcript::new(answers, 1);
    let mut data = [9u8; 3];
    assert_eq!(transcript.read_register(0x10, 24, &mut data), Ok(()));
    assert_eq!(data, [1, 2, 0]);
    assert_eq!(transcript.write_register(0x11, 8, &[5]), Err(Stop::Refused(1)));
    assert!(transcript.is_answered());
    assert_eq!(transcript.write_register(0x12, 8, &[6]), Ok(()));
    assert_eq!(transcript.write_register(0x13, 8, &[7]), Err(Stop::Unanswered));
    assert!(!transcript.is_answered());
    assert_eq!(transcript.batch(), vec![Step::Access(2)]);
    assert_eq!(
        transcript.requests()[0],
        Request::Read { address: 0x10, size_bits: 24, len: 3 }
    );
    assert_eq!(
        transcript.requests()[1],
        Request::Write { address: 0x11, size_bits: 8, data: vec![5] }
    );
    assert_eq!(transcript.into_answers().len(), 2);
}

#[test]
fn a_batch_ends_with_a_read() {
    let mut transcript = Transcript::new(vec![], 10);
    transcript.note_pause(Pause::Ms(1));
    transcript.write_register(0, 8, &[0]).unwrap();
    transcript.note_pause(Pause::Us(2));
    transcript.note_pause(Pause::Spin(3));
    transcript.read_register(0, 8, &mut [0]).unwrap();
    transcript.note_pause(Pause::Ms(4));
    transcript.write_register(0, 8, &[0]).unwrap();
    assert_eq!(
        transcript.batch(),
        vec![
            Step::Pause(Pause::Ms(1)),
            Step::Access(0),
            Step::Pause(Pause::Us(2)),
            Step::Pause(Pause::Spin(3)),
            Step::Access(1),
        ]
    );
    assert_eq!(transcript.pauses()[1], Noted { position: 1, pause: Pause::Us(2) });
}

#[test]
fn the_last_pauses_come_when_all_is_answered() {
    let answers = vec![Answer { data: vec![], carried_out: true }];
    let mut transcript = Transcript::new(answers, 10);
    transcript.note_pause(Pause::Ms(1));
    transcript.write_register(0, 8, &[0]).unwrap();
    transcript.note_pause(Pause::Ms(2));
    assert_eq!(transcript.batch(), vec![Step::Pause(Pause::Ms(2))]);
}

#[test]
fn without_a_window_nothing_is_taken_down_to_do() {
    let mut transcript = Transcript::new(vec![], 0);
    assert_eq!(transcript.write_register(0, 8, &[0]), Err(Stop::Unanswered));
    assert_eq!(transcript.batch(), vec![]);
}
