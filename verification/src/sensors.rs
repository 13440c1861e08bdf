//! Accelerometer, gyroscope and magnetometer settings.

use vstd::prelude::*;

verus! {

/// The bit pattern of the single-precision number 1.0.
pub const ONE_F32: u32 = 0x3F80_0000;

/// Full scale of the accelerometer.
#[derive(Debug, Clone, Copy, PartialEq, Eq, Structural)]
pub enum AccelFullScale {
    /// 2 g either way.
    G2,
    /// 4 g either way.
    G4,
    /// 8 g either way.
    G8,
    /// 16 g either way.
    G16,
}

impl AccelFullScale {
    /// The code of `ACCEL_FS_SEL`.
    pub open spec fn spec_code(self) -> u8 {
        match self {
            AccelFullScale::G2 => 0,
            AccelFullScale::G4 => 1,
            AccelFullScale::G8 => 2,
            AccelFullScale::G16 => 3,
        }
    }

    /// The code of `ACCEL_FS_SEL`.
    #[verifier::when_used_as_spec(spec_code)]
    pub fn code(self) -> (code: u8)
        ensures
            code == self.spec_code(),
    {
        match self {
            AccelFullScale::G2 => 0,
            AccelFullScale::G4 => 1,
            AccelFullScale::G8 => 2,
            AccelFullScale::G16 => 3,
        }
    }

    /// Counts per g: half of what the previous scale has.
    pub open spec fn spec_sensitivity(self) -> i16 {
        match self {
            AccelFullScale::G2 => 16384,
            AccelFullScale::G4 => 8192,
            AccelFullScale::G8 => 4096,
            AccelFullScale::G16 => 2048,
        }
    }

    /// Counts per g.
    #[verifier::when_used_as_spec(spec_sensitivity)]
    pub fn sensitivity(self) -> (counts: i16)
        ensures
            counts == self.spec_sensitivity(),
    {
        match self {
            AccelFullScale::G2 => 16384,
            AccelFullScale::G4 => 8192,
            AccelFullScale::G8 => 4096,
            AccelFullScale::G16 => 2048,
        }
    }
}

/// Bandwidth of the accelerometer's low-pass filter.
#[derive(Debug, Clone, Copy, PartialEq, Eq, Structural)]
pub enum AccelDlpf {
    /// 246 Hz.
    Hz246,
    /// 111 Hz.
    Hz111,
    /// 50 Hz.
    Hz50,
    /// 24 Hz.
    Hz24,
    /// 11 Hz.
    Hz11,
    /// 6 Hz.
    Hz6,
    /// 473 Hz.
    Hz473,
}

impl AccelDlpf {
    /// The code of `ACCEL_DLPFCFG`.
    pub open spec fn spec_code(self) -> u8 {
        match self {
            AccelDlpf::Hz246 => 1,
            AccelDlpf::Hz111 => 2,
            AccelDlpf::Hz50 => 3,
            AccelDlpf::Hz24 => 4,
            AccelDlpf::Hz11 => 5,
            AccelDlpf::Hz6 => 6,
            AccelDlpf::Hz473 => 7,
        }
    }

    /// The code of `ACCEL_DLPFCFG`.
    #[verifier::when_used_as_spec(spec_code)]
    pub fn code(self) -> (code: u8)
        ensures
            code == self.spec_code(),
    {
        match self {
            AccelDlpf::Hz246 => 1,
            AccelDlpf::Hz111 => 2,
            AccelDlpf::Hz50 => 3,
            AccelDlpf::Hz24 => 4,
            AccelDlpf::Hz11 => 5,
            AccelDlpf::Hz6 => 6,
            AccelDlpf::Hz473 => 7,
        }
    }
}

/// Accelerometer settings.
#[derive(Debug, Clone, Copy, PartialEq, Eq, Structural)]
pub struct AccelConfig {
    /// The range.
    pub full_scale: AccelFullScale,
    /// The low-pass filter.
    pub dlpf: AccelDlpf,
    /// Whether the filter is in use.
    pub dlpf_enable: bool,
    /// The sample rate divider.
    pub sample_rate_div: u16,
}

impl Default for AccelConfig {
    fn default() -> (config: Self)
        ensures
            config == (AccelConfig {
                full_scale: AccelFullScale::G2,
                dlpf: AccelDlpf::Hz246,
                dlpf_enable: true,
                sample_rate_div: 0,
            }),
    {
        AccelConfig {
            full_scale: AccelFullScale::G2,
            dlpf: AccelDlpf::Hz246,
            dlpf_enable: true,
            sample_rate_div: 0,
        }
    }
}

/// Full scale of the gyroscope.
#[derive(Debug, Clone, Copy, PartialEq, Eq, Structural)]
pub enum GyroFullScale {
    /// 250 degrees per second either way.
    Dps250,
    /// 500 degrees per second either way.
    Dps500,
    /// 1000 degrees per second either way.
    Dps1000,
    /// 2000 degrees per second either way.
    Dps2000,
}

impl GyroFullScale {
    /// The code of `GYRO_FS_SEL`.
    pub open spec fn spec_code(self) -> u8 {
        match self {
            GyroFullScale::Dps250 => 0,
            GyroFullScale::Dps500 => 1,
            GyroFullScale::Dps1000 => 2,
            GyroFullScale::Dps2000 => 3,
        }
    }

    /// The code of `GYRO_FS_SEL`.
    #[verifier::when_used_as_spec(spec_code)]
    pub fn code(self) -> (code: u8)
        ensures
            code == self.spec_code(),
    {
        match self {
            GyroFullScale::Dps250 => 0,
            GyroFullScale::Dps500 => 1,
            GyroFullScale::Dps1000 => 2,
            GyroFullScale::Dps2000 => 3,
        }
    }

    /// Whole counts per degree per second.
    pub open spec fn spec_sensitivity(self) -> i16 {
        match self {
            GyroFullScale::Dps250 => 131,
            GyroFullScale::Dps500 => 65,
            GyroFullScale::Dps1000 => 32,
            GyroFullScale::Dps2000 => 16,
        }
    }

    /// Whole counts per degree per second.
    #[verifier::when_used_as_spec(spec_sensitivity)]
    pub fn sensitivity(self) -> (counts: i16)
        ensures
            counts == self.spec_sensitivity(),
    {
        match self {
            GyroFullScale::Dps250 => 131,
            GyroFullScale::Dps500 => 65,
            GyroFullScale::Dps1000 => 32,
            GyroFullScale::Dps2000 => 16,
        }
    }
}

/// Bandwidth of the gyroscope's low-pass filter.
#[derive(Debug, Clone, Copy, PartialEq, Eq, Structural)]
pub enum GyroDlpf {
    /// 197 Hz.
    Hz197,
    /// 152 Hz.
    Hz152,
    /// 120 Hz.
    Hz120,
    /// 51 Hz.
    Hz51,
    /// 24 Hz.
    Hz24,
    /// 12 Hz.
    Hz12,
    /// 6 Hz.
    Hz6,
    /// 361 Hz.
    Hz361,
}

impl GyroDlpf {
    /// The code of `GYRO_DLPFCFG`.
    pub open spec fn spec_code(self) -> u8 {
        match self {
            GyroDlpf::Hz197 => 0,
            GyroDlpf::Hz152 => 1,
            GyroDlpf::Hz120 => 2,
            GyroDlpf::Hz51 => 3,
            GyroDlpf::Hz24 => 4,
            GyroDlpf::Hz12 => 5,
            GyroDlpf::Hz6 => 6,
            GyroDlpf::Hz361 => 7,
        }
    }

    /// The code of `GYRO_DLPFCFG`.
    #[verifier::when_used_as_spec(spec_code)]
    pub fn code(self) -> (code: u8)
        ensures
            code == self.spec_code(),
    {
        match self {
            GyroDlpf::Hz197 => 0,
            GyroDlpf::Hz152 => 1,
            GyroDlpf::Hz120 => 2,
            GyroDlpf::Hz51 => 3,
            GyroDlpf::Hz24 => 4,
            GyroDlpf::Hz12 => 5,
            GyroDlpf::Hz6 => 6,
            GyroDlpf::Hz361 => 7,
        }
    }
}

/// Gyroscope settings.
#[derive(Debug, Clone, Copy, PartialEq, Eq, Structural)]
pub struct GyroConfig {
    /// The range.
    pub full_scale: GyroFullScale,
    /// The low-pass filter.
    pub dlpf: GyroDlpf,
    /// Whether the filter is in use.
    pub dlpf_enable: bool,
    /// The sample rate divider.
    pub sample_rate_div: u8,
}

impl Default for GyroConfig {
    fn default() -> (config: Self)
        ensures
            config == (GyroConfig {
                full_scale: GyroFullScale::Dps250,
                dlpf: GyroDlpf::Hz197,
                dlpf_enable: true,
                sample_rate_div: 0,
            }),
    {
        GyroConfig {
            full_scale: GyroFullScale::Dps250,
            dlpf: GyroDlpf::Hz197,
            dlpf_enable: true,
            sample_rate_div: 0,
        }
    }
}

/// What is subtracted from a raw accelerometer reading, and the factors it is
/// then multiplied by, as bit patterns of single-precision numbers.
#[derive(Debug, Clone, Copy, PartialEq, Eq, Structural)]
pub struct AccelCalibration {
    /// Offset of the X axis, in counts.
    pub offset_x: i16,
    /// Offset of the Y axis, in counts.
    pub offset_y: i16,
    /// Offset of the Z axis, in counts.
    pub offset_z: i16,
    /// Bits of the factor of the X axis.
    pub scale_x_bits: u32,
    /// Bits of the factor of the Y axis.
    pub scale_y_bits: u32,
    /// Bits of the factor of the Z axis.
    pub scale_z_bits: u32,
}

impl AccelCalibration {
    /// The calibration with the given offsets and no scaling.
    pub open spec fn spec_offsets(offset_x: i16, offset_y: i16, offset_z: i16) -> Self {
        AccelCalibration {
            offset_x,
            offset_y,
            offset_z,
            scale_x_bits: ONE_F32,
            scale_y_bits: ONE_F32,
            scale_z_bits: ONE_F32,
        }
    }

    /// The calibration with the given offsets and no scaling.
    pub fn offsets(offset_x: i16, offset_y: i16, offset_z: i16) -> (calibration: Self)
        ensures
            calibration == Self::spec_offsets(offset_x, offset_y, offset_z),
    {
        AccelCalibration {
            offset_x,
            offset_y,
            offset_z,
            scale_x_bits: ONE_F32,
            scale_y_bits: ONE_F32,
            scale_z_bits: ONE_F32,
        }
    }
}

impl Default for AccelCalibration {
    fn default() -> (calibration: Self)
        ensures
            calibration == Self::spec_offsets(0, 0, 0),
    {
        AccelCalibration::offsets(0, 0, 0)
    }
}

/// What is subtracted from a raw gyroscope reading, and the factors it is then
/// multiplied by, as bit patterns of single-precision numbers.
#[derive(Debug, Clone, Copy, PartialEq, Eq, Structural)]
pub struct GyroCalibration {
    /// Offset of the X axis, in counts.
    pub offset_x: i16,
    /// Offset of the Y axis, in counts.
    pub offset_y: i16,
    /// Offset of the Z axis, in counts.
    pub offset_z: i16,
    /// Bits of the factor of the X axis.
    pub scale_x_bits: u32,
    /// Bits of the factor of the Y axis.
    pub scale_y_bits: u32,
    /// Bits of the factor of the Z axis.
    pub scale_z_bits: u32,
}

impl GyroCalibration {
    /// The calibration with the given offsets and no scaling.
    pub open spec fn spec_offsets(offset_x: i16, offset_y: i16, offset_z: i16) -> Self {
        GyroCalibration {
            offset_x,
            offset_y,
            offset_z,
            scale_x_bits: ONE_F32,
            scale_y_bits: ONE_F32,
            scale_z_bits: ONE_F32,
        }
    }

    /// The calibration with the given offsets and no scaling.
    pub fn offsets(offset_x: i16, offset_y: i16, offset_z: i16) -> (calibration: Self)
        ensures
            calibration == Self::spec_offsets(offset_x, offset_y, offset_z),
    {
        GyroCalibration {
            offset_x,
            offset_y,
            offset_z,
            scale_x_bits: ONE_F32,
            scale_y_bits: ONE_F32,
            scale_z_bits: ONE_F32,
        }
    }
}

impl Default for GyroCalibration {
    fn default() -> (calibration: Self)
        ensures
            calibration == Self::spec_offsets(0, 0, 0),
    {
        GyroCalibration::offsets(0, 0, 0)
    }
}

/// What is subtracted from a magnetometer reading in microtesla, and the
/// factors it is then multiplied by, all as bit patterns of single-precision
/// numbers.
#[derive(Debug, Clone, Copy, PartialEq, Eq, Structural)]
pub struct MagCalibration {
    /// Bits of the offset of the X axis.
    pub offset_x_bits: u32,
    /// Bits of the offset of the Y axis.
    pub offset_y_bits: u32,
    /// Bits of the offset of the Z axis.
    pub offset_z_bits: u32,
    /// Bits of the factor of the X axis.
    pub scale_x_bits: u32,
    /// Bits of the factor of the Y axis.
    pub scale_y_bits: u32,
    /// Bits of the factor of the Z axis.
    pub scale_z_bits: u32,
}

impl Default for MagCalibration {
    fn default() -> (calibration: Self)
        ensures
            calibration == (MagCalibration {
                offset_x_bits: 0,
                offset_y_bits: 0,
                offset_z_bits: 0,
                scale_x_bits: ONE_F32,
                scale_y_bits: ONE_F32,
                scale_z_bits: ONE_F32,
            }),
    {
        MagCalibration {
            offset_x_bits: 0,
            offset_y_bits: 0,
            offset_z_bits: 0,
            scale_x_bits: ONE_F32,
            scale_y_bits: ONE_F32,
            scale_z_bits: ONE_F32,
        }
    }
}

} // verus!
