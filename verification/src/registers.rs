//! The register map of the chip: where each register lies, and the bits in it.

use vstd::prelude::*;

use crate::Bank;

verus! {

/// The register device: the chip behind a bus interface.
pub struct Icm20948<I> {
    /// The interface that carries every access.
    pub interface: I,
}

impl<I> Icm20948<I> {
    /// The register device on `interface`.
    pub fn new(interface: I) -> (device: Self)
        ensures
            device.interface == interface,
    {
        Icm20948 { interface }
    }
}

/// The registers that the driver uses.
#[derive(Debug, Clone, Copy, PartialEq, Eq, Structural)]
pub enum Register {
    /// `REG_BANK_SEL`, reachable from every bank.
    RegBankSel,
    /// `WHO_AM_I`.
    WhoAmI,
    /// `USER_CTRL`.
    UserCtrl,
    /// `LP_CONFIG`.
    LpConfig,
    /// `PWR_MGMT_1`.
    PwrMgmt1,
    /// `PWR_MGMT_2`.
    PwrMgmt2,
    /// `INT_PIN_CFG`.
    IntPinCfg,
    /// `INT_ENABLE`.
    IntEnable,
    /// `INT_ENABLE_1`.
    IntEnable1,
    /// `INT_ENABLE_2`.
    IntEnable2,
    /// `INT_ENABLE_3`.
    IntEnable3,
    /// `I2C_MST_STATUS`.
    I2cMstStatus,
    /// `INT_STATUS`.
    IntStatus,
    /// `INT_STATUS_1`.
    IntStatus1,
    /// `INT_STATUS_2`.
    IntStatus2,
    /// `INT_STATUS_3`.
    IntStatus3,
    /// `SINGLE_FIFO_PRIORITY_SEL`.
    SingleFifoPrioritySel,
    /// `ACCEL_XOUT_H`, the first of six accelerometer bytes.
    AccelXoutH,
    /// `GYRO_XOUT_H`, the first of six gyroscope bytes.
    GyroXoutH,
    /// `TEMP_OUT_H`, the first of two temperature bytes.
    TempOutH,
    /// `EXT_SLV_SENS_DATA_00`.
    ExtSlvSensData00,
    /// `EXT_SLV_SENS_DATA_01`.
    ExtSlvSensData01,
    /// `EXT_SLV_SENS_DATA_02`.
    ExtSlvSensData02,
    /// `EXT_SLV_SENS_DATA_03`.
    ExtSlvSensData03,
    /// `EXT_SLV_SENS_DATA_04`.
    ExtSlvSensData04,
    /// `EXT_SLV_SENS_DATA_05`.
    ExtSlvSensData05,
    /// `EXT_SLV_SENS_DATA_06`.
    ExtSlvSensData06,
    /// `EXT_SLV_SENS_DATA_07`.
    ExtSlvSensData07,
    /// `EXT_SLV_SENS_DATA_08`.
    ExtSlvSensData08,
    /// `FIFO_EN_1`.
    FifoEn1,
    /// `FIFO_EN_2`.
    FifoEn2,
    /// `FIFO_RST`.
    FifoRst,
    /// `FIFO_MODE`.
    FifoMode,
    /// `FIFO_COUNTH`.
    FifoCountH,
    /// `FIFO_COUNTL`.
    FifoCountL,
    /// `FIFO_R_W`.
    FifoRW,
    /// `DATA_RDY_STATUS`.
    DataRdyStatus,
    /// `HW_FIX_DISABLE`.
    HwFixDisable,
    /// `MEM_START_ADDR`.
    MemStartAddr,
    /// `MEM_R_W`.
    MemRW,
    /// `MEM_BANK_SEL`.
    MemBankSel,
    /// `GYRO_SMPLRT_DIV`.
    GyroSmplrtDiv,
    /// `GYRO_CONFIG_1`.
    GyroConfig1,
    /// `GYRO_CONFIG_2`.
    GyroConfig2,
    /// `ODR_ALIGN_EN`.
    OdrAlignEn,
    /// `ACCEL_SMPLRT_DIV_1`.
    AccelSmplrtDiv1,
    /// `ACCEL_SMPLRT_DIV_2`.
    AccelSmplrtDiv2,
    /// `ACCEL_INTEL_CTRL`.
    AccelIntelCtrl,
    /// `ACCEL_WOM_THR`.
    AccelWomThr,
    /// `ACCEL_CONFIG`.
    AccelConfig,
    /// `ACCEL_CONFIG_2`.
    AccelConfig2,
    /// `PRGM_START_ADDRH`.
    PrgmStartAddrH,
    /// `PRGM_START_ADDRL`.
    PrgmStartAddrL,
    /// `MOD_CTRL_USR`.
    ModCtrlUsr,
    /// `I2C_MST_ODR_CONFIG`.
    I2cMstOdrConfig,
    /// `I2C_MST_CTRL`.
    I2cMstCtrl,
    /// `I2C_MST_DELAY_CTRL`.
    I2cMstDelayCtrl,
    /// `I2C_SLV0_ADDR`.
    I2cSlv0Addr,
    /// `I2C_SLV0_REG`.
    I2cSlv0Reg,
    /// `I2C_SLV0_CTRL`.
    I2cSlv0Ctrl,
    /// `I2C_SLV1_ADDR`.
    I2cSlv1Addr,
    /// `I2C_SLV1_REG`.
    I2cSlv1Reg,
    /// `I2C_SLV1_CTRL`.
    I2cSlv1Ctrl,
    /// `I2C_SLV1_DO`.
    I2cSlv1Do,
    /// `I2C_SLV4_ADDR`.
    I2cSlv4Addr,
    /// `I2C_SLV4_REG`.
    I2cSlv4Reg,
    /// `I2C_SLV4_CTRL`.
    I2cSlv4Ctrl,
    /// `I2C_SLV4_DO`.
    I2cSlv4Do,
    /// `I2C_SLV4_DI`.
    I2cSlv4Di,
}

impl Register {
    /// The address of the register within its bank.
    pub open spec fn spec_address(self) -> u8 {
        match self {
            Register::RegBankSel => 0x7F,
            Register::WhoAmI => 0x00,
            Register::UserCtrl => 0x03,
            Register::LpConfig => 0x05,
            Register::PwrMgmt1 => 0x06,
            Register::PwrMgmt2 => 0x07,
            Register::IntPinCfg => 0x0F,
            Register::IntEnable => 0x10,
            Register::IntEnable1 => 0x11,
            Register::IntEnable2 => 0x12,
            Register::IntEnable3 => 0x13,
            Register::I2cMstStatus => 0x17,
            Register::IntStatus => 0x19,
            Register::IntStatus1 => 0x1A,
            Register::IntStatus2 => 0x1B,
            Register::IntStatus3 => 0x1C,
            Register::SingleFifoPrioritySel => 0x26,
            Register::AccelXoutH => 0x2D,
            Register::GyroXoutH => 0x33,
            Register::TempOutH => 0x39,
            Register::ExtSlvSensData00 => 0x3B,
            Register::ExtSlvSensData01 => 0x3C,
            Register::ExtSlvSensData02 => 0x3D,
            Register::ExtSlvSensData03 => 0x3E,
            Register::ExtSlvSensData04 => 0x3F,
            Register::ExtSlvSensData05 => 0x40,
            Register::ExtSlvSensData06 => 0x41,
            Register::ExtSlvSensData07 => 0x42,
            Register::ExtSlvSensData08 => 0x43,
            Register::FifoEn1 => 0x66,
            Register::FifoEn2 => 0x67,
            Register::FifoRst => 0x68,
            Register::FifoMode => 0x69,
            Register::FifoCountH => 0x70,
            Register::FifoCountL => 0x71,
            Register::FifoRW => 0x72,
            Register::DataRdyStatus => 0x74,
            Register::HwFixDisable => 0x75,
            Register::MemStartAddr => 0x7C,
            Register::MemRW => 0x7D,
            Register::MemBankSel => 0x7E,
            Register::GyroSmplrtDiv => 0x00,
            Register::GyroConfig1 => 0x01,
            Register::GyroConfig2 => 0x02,
            Register::OdrAlignEn => 0x09,
            Register::AccelSmplrtDiv1 => 0x10,
            Register::AccelSmplrtDiv2 => 0x11,
            Register::AccelIntelCtrl => 0x12,
            Register::AccelWomThr => 0x13,
            Register::AccelConfig => 0x14,
            Register::AccelConfig2 => 0x15,
            Register::PrgmStartAddrH => 0x50,
            Register::PrgmStartAddrL => 0x51,
            Register::ModCtrlUsr => 0x54,
            Register::I2cMstOdrConfig => 0x00,
            Register::I2cMstCtrl => 0x01,
            Register::I2cMstDelayCtrl => 0x02,
            Register::I2cSlv0Addr => 0x03,
            Register::I2cSlv0Reg => 0x04,
            Register::I2cSlv0Ctrl => 0x05,
            Register::I2cSlv1Addr => 0x07,
            Register::I2cSlv1Reg => 0x08,
            Register::I2cSlv1Ctrl => 0x09,
            Register::I2cSlv1Do => 0x0A,
            Register::I2cSlv4Addr => 0x13,
            Register::I2cSlv4Reg => 0x14,
            Register::I2cSlv4Ctrl => 0x15,
            Register::I2cSlv4Do => 0x16,
            Register::I2cSlv4Di => 0x17,
        }
    }

    /// The address of the register within its bank.
    #[verifier::when_used_as_spec(spec_address)]
    pub fn address(self) -> (address: u8)
        ensures
            address == self.spec_address(),
    {
        match self {
            Register::RegBankSel => 0x7F,
            Register::WhoAmI => 0x00,
            Register::UserCtrl => 0x03,
            Register::LpConfig => 0x05,
            Register::PwrMgmt1 => 0x06,
            Register::PwrMgmt2 => 0x07,
            Register::IntPinCfg => 0x0F,
            Register::IntEnable => 0x10,
            Register::IntEnable1 => 0x11,
            Register::IntEnable2 => 0x12,
            Register::IntEnable3 => 0x13,
            Register::I2cMstStatus => 0x17,
            Register::IntStatus => 0x19,
            Register::IntStatus1 => 0x1A,
            Register::IntStatus2 => 0x1B,
            Register::IntStatus3 => 0x1C,
            Register::SingleFifoPrioritySel => 0x26,
            Register::AccelXoutH => 0x2D,
            Register::GyroXoutH => 0x33,
            Register::TempOutH => 0x39,
            Register::ExtSlvSensData00 => 0x3B,
            Register::ExtSlvSensData01 => 0x3C,
            Register::ExtSlvSensData02 => 0x3D,
            Register::ExtSlvSensData03 => 0x3E,
            Register::ExtSlvSensData04 => 0x3F,
            Register::ExtSlvSensData05 => 0x40,
            Register::ExtSlvSensData06 => 0x41,
            Register::ExtSlvSensData07 => 0x42,
            Register::ExtSlvSensData08 => 0x43,
            Register::FifoEn1 => 0x66,
            Register::FifoEn2 => 0x67,
            Register::FifoRst => 0x68,
            Register::FifoMode => 0x69,
            Register::FifoCountH => 0x70,
            Register::FifoCountL => 0x71,
            Register::FifoRW => 0x72,
            Register::DataRdyStatus => 0x74,
            Register::HwFixDisable => 0x75,
            Register::MemStartAddr => 0x7C,
            Register::MemRW => 0x7D,
            Register::MemBankSel => 0x7E,
            Register::GyroSmplrtDiv => 0x00,
            Register::GyroConfig1 => 0x01,
            Register::GyroConfig2 => 0x02,
            Register::OdrAlignEn => 0x09,
            Register::AccelSmplrtDiv1 => 0x10,
            Register::AccelSmplrtDiv2 => 0x11,
            Register::AccelIntelCtrl => 0x12,
            Register::AccelWomThr => 0x13,
            Register::AccelConfig => 0x14,
            Register::AccelConfig2 => 0x15,
            Register::PrgmStartAddrH => 0x50,
            Register::PrgmStartAddrL => 0x51,
            Register::ModCtrlUsr => 0x54,
            Register::I2cMstOdrConfig => 0x00,
            Register::I2cMstCtrl => 0x01,
            Register::I2cMstDelayCtrl => 0x02,
            Register::I2cSlv0Addr => 0x03,
            Register::I2cSlv0Reg => 0x04,
            Register::I2cSlv0Ctrl => 0x05,
            Register::I2cSlv1Addr => 0x07,
            Register::I2cSlv1Reg => 0x08,
            Register::I2cSlv1Ctrl => 0x09,
            Register::I2cSlv1Do => 0x0A,
            Register::I2cSlv4Addr => 0x13,
            Register::I2cSlv4Reg => 0x14,
            Register::I2cSlv4Ctrl => 0x15,
            Register::I2cSlv4Do => 0x16,
            Register::I2cSlv4Di => 0x17,
        }
    }

    /// The bank that has to be selected before the register is reached.
    /// `REG_BANK_SEL` itself answers in every bank and is listed under bank 0.
    pub open spec fn bank(self) -> Bank {
        match self {
            Register::GyroSmplrtDiv
            | Register::GyroConfig1
            | Register::GyroConfig2
            | Register::OdrAlignEn
            | Register::AccelSmplrtDiv1
            | Register::AccelSmplrtDiv2
            | Register::AccelIntelCtrl
            | Register::AccelWomThr
            | Register::AccelConfig
            | Register::AccelConfig2
            | Register::PrgmStartAddrH
            | Register::PrgmStartAddrL
            | Register::ModCtrlUsr => Bank::Bank2,
            Register::I2cMstOdrConfig
            | Register::I2cMstCtrl
            | Register::I2cMstDelayCtrl
            | Register::I2cSlv0Addr
            | Register::I2cSlv0Reg
            | Register::I2cSlv0Ctrl
            | Register::I2cSlv1Addr
            | Register::I2cSlv1Reg
            | Register::I2cSlv1Ctrl
            | Register::I2cSlv1Do
            | Register::I2cSlv4Addr
            | Register::I2cSlv4Reg
            | Register::I2cSlv4Ctrl
            | Register::I2cSlv4Do
            | Register::I2cSlv4Di => Bank::Bank3,
            _ => Bank::Bank0,
        }
    }
}

/// Within a bank, the address tells which register is meant.
pub proof fn address_tells_register(a: Register, b: Register)
    requires
        a.bank() == b.bank(),
        a.address() == b.address(),
    ensures
        a == b,
{
}

/// Registers that belong together lie together: the bytes of slave 0 one behind the other,
/// the registers of each slave from its address on, four further for the next slave, and
/// those of the FIFO, of the interrupts and of the sensors in their order.
pub proof fn registers_lie_together()
    ensures
        ({
            let slave = Register::ExtSlvSensData00.address();
            &&& Register::ExtSlvSensData01.address() == slave + 1
            &&& Register::ExtSlvSensData02.address() == slave + 2
            &&& Register::ExtSlvSensData03.address() == slave + 3
            &&& Register::ExtSlvSensData04.address() == slave + 4
            &&& Register::ExtSlvSensData05.address() == slave + 5
            &&& Register::ExtSlvSensData06.address() == slave + 6
            &&& Register::ExtSlvSensData07.address() == slave + 7
            &&& Register::ExtSlvSensData08.address() == slave + 8
            &&& Register::GyroXoutH.address() == Register::AccelXoutH.address() + 6
            &&& Register::TempOutH.address() == Register::GyroXoutH.address() + 6
            &&& slave == Register::TempOutH.address() + 2
        }),
        ({
            let first = Register::I2cSlv0Addr.address();
            &&& Register::I2cSlv0Reg.address() == first + 1
            &&& Register::I2cSlv0Ctrl.address() == first + 2
            &&& Register::I2cSlv1Addr.address() == first + 4
            &&& Register::I2cSlv1Reg.address() == first + 5
            &&& Register::I2cSlv1Ctrl.address() == first + 6
            &&& Register::I2cSlv1Do.address() == first + 7
            &&& Register::I2cSlv4Addr.address() == first + 16
            &&& Register::I2cSlv4Reg.address() == first + 17
            &&& Register::I2cSlv4Ctrl.address() == first + 18
            &&& Register::I2cSlv4Do.address() == first + 19
            &&& Register::I2cSlv4Di.address() == first + 20
            &&& Register::I2cMstCtrl.address() == Register::I2cMstOdrConfig.address() + 1
            &&& Register::I2cMstDelayCtrl.address() == Register::I2cMstOdrConfig.address() + 2
            &&& first == Register::I2cMstOdrConfig.address() + 3
        }),
        ({
            &&& Register::IntEnable1.address() == Register::IntEnable.address() + 1
            &&& Register::IntEnable2.address() == Register::IntEnable.address() + 2
            &&& Register::IntEnable3.address() == Register::IntEnable.address() + 3
            &&& Register::IntStatus1.address() == Register::IntStatus.address() + 1
            &&& Register::IntStatus2.address() == Register::IntStatus.address() + 2
            &&& Register::IntStatus3.address() == Register::IntStatus.address() + 3
            &&& Register::PwrMgmt1.address() == Register::LpConfig.address() + 1
            &&& Register::PwrMgmt2.address() == Register::LpConfig.address() + 2
            &&& Register::FifoEn2.address() == Register::FifoEn1.address() + 1
            &&& Register::FifoRst.address() == Register::FifoEn1.address() + 2
            &&& Register::FifoMode.address() == Register::FifoEn1.address() + 3
            &&& Register::FifoCountL.address() == Register::FifoCountH.address() + 1
            &&& Register::FifoRW.address() == Register::FifoCountH.address() + 2
            &&& Register::MemStartAddr.address() == 0x7C
            &&& Register::MemRW.address() == 0x7D
            &&& Register::MemBankSel.address() == 0x7E
            &&& Register::RegBankSel.address() == 0x7F
        }),
        ({
            &&& Register::GyroConfig1.address() == Register::GyroSmplrtDiv.address() + 1
            &&& Register::GyroConfig2.address() == Register::GyroSmplrtDiv.address() + 2
            &&& Register::AccelSmplrtDiv2.address() == Register::AccelSmplrtDiv1.address() + 1
            &&& Register::AccelIntelCtrl.address() == Register::AccelSmplrtDiv1.address() + 2
            &&& Register::AccelWomThr.address() == Register::AccelSmplrtDiv1.address() + 3
            &&& Register::AccelConfig.address() == Register::AccelSmplrtDiv1.address() + 4
            &&& Register::AccelConfig2.address() == Register::AccelSmplrtDiv1.address() + 5
            &&& Register::PrgmStartAddrL.address() == Register::PrgmStartAddrH.address() + 1
        }),
{
}

// Bits of `USER_CTRL`.
/// `DMP_EN`.
pub const DMP_EN: u8 = 0x80;
/// `FIFO_EN`.
pub const FIFO_EN: u8 = 0x40;
/// `I2C_MST_EN`.
pub const I2C_MST_EN: u8 = 0x20;
/// `I2C_IF_DIS`.
pub const I2C_IF_DIS: u8 = 0x10;
/// `DMP_RST`.
pub const DMP_RST: u8 = 0x08;
/// `SRAM_RST`.
pub const SRAM_RST: u8 = 0x04;
/// `I2C_MST_RST`.
pub const I2C_MST_RST: u8 = 0x02;

// Bits of `LP_CONFIG`.
/// `I2C_MST_CYCLE`.
pub const I2C_MST_CYCLE: u8 = 0x40;
/// `ACCEL_CYCLE`.
pub const ACCEL_CYCLE: u8 = 0x20;
/// `GYRO_CYCLE`.
pub const GYRO_CYCLE: u8 = 0x10;

// Bits of `PWR_MGMT_1`.
/// `DEVICE_RESET`.
pub const DEVICE_RESET: u8 = 0x80;
/// `SLEEP`.
pub const SLEEP: u8 = 0x40;
/// `LP_EN`.
pub const LP_EN: u8 = 0x20;
/// `TEMP_DIS`.
pub const TEMP_DIS: u8 = 0x08;
/// `CLKSEL`.
pub const CLKSEL: u8 = 0x07;

// Bits of `PWR_MGMT_2`.
/// `DISABLE_ACCEL_X`.
pub const DISABLE_ACCEL_X: u8 = 0x20;
/// `DISABLE_ACCEL_Y`.
pub const DISABLE_ACCEL_Y: u8 = 0x10;
/// `DISABLE_ACCEL_Z`.
pub const DISABLE_ACCEL_Z: u8 = 0x08;
/// `DISABLE_GYRO_X`.
pub const DISABLE_GYRO_X: u8 = 0x04;
/// `DISABLE_GYRO_Y`.
pub const DISABLE_GYRO_Y: u8 = 0x02;
/// `DISABLE_GYRO_Z`.
pub const DISABLE_GYRO_Z: u8 = 0x01;

// Bits of `INT_PIN_CFG`.
/// `INT1_ACTL`.
pub const INT1_ACTL: u8 = 0x80;
/// `INT1_OPEN`.
pub const INT1_OPEN: u8 = 0x40;
/// `INT1_LATCH_INT_EN`.
pub const INT1_LATCH_INT_EN: u8 = 0x20;
/// `INT_ANYRD_2CLEAR`.
pub const INT_ANYRD_2CLEAR: u8 = 0x10;
/// `BYPASS_EN`.
pub const BYPASS_EN: u8 = 0x02;

// Bits of `INT_ENABLE`.
/// `WOM_INT_EN`.
pub const WOM_INT_EN: u8 = 0x08;
/// `PLL_RDY_EN`.
pub const PLL_RDY_EN: u8 = 0x04;
/// `DMP_INT1_EN`.
pub const DMP_INT1_EN: u8 = 0x02;
/// `I2C_MST_INT_EN`.
pub const I2C_MST_INT_EN: u8 = 0x01;

// Bits of `INT_ENABLE_1`.
/// `RAW_DATA_0_RDY_EN`.
pub const RAW_DATA_0_RDY_EN: u8 = 0x01;

// Bits of `I2C_MST_STATUS`.
/// `I2C_SLV4_DONE`.
pub const I2C_SLV4_DONE: u8 = 0x40;
/// `I2C_LOST_ARB`.
pub const I2C_LOST_ARB: u8 = 0x20;
/// `I2C_SLV4_NACK`.
pub const I2C_SLV4_NACK: u8 = 0x10;

// Bits of `INT_STATUS`.
/// `WOM_INT`.
pub const WOM_INT: u8 = 0x08;
/// `PLL_RDY_INT`.
pub const PLL_RDY_INT: u8 = 0x04;
/// `DMP_INT1`.
pub const DMP_INT1: u8 = 0x02;
/// `I2C_MST_INT`.
pub const I2C_MST_INT: u8 = 0x01;

// Bits of `INT_STATUS_1`.
/// `RAW_DATA_0_RDY_INT`.
pub const RAW_DATA_0_RDY_INT: u8 = 0x01;

// Bits of `FIFO_EN_1`.
/// `SLV_3_FIFO_EN`.
pub const SLV_3_FIFO_EN: u8 = 0x08;
/// `SLV_2_FIFO_EN`.
pub const SLV_2_FIFO_EN: u8 = 0x04;
/// `SLV_1_FIFO_EN`.
pub const SLV_1_FIFO_EN: u8 = 0x02;
/// `SLV_0_FIFO_EN`.
pub const SLV_0_FIFO_EN: u8 = 0x01;

// Bits of `FIFO_EN_2`.
/// `ACCEL_FIFO_EN`.
pub const ACCEL_FIFO_EN: u8 = 0x10;
/// `GYRO_Z_FIFO_EN`.
pub const GYRO_Z_FIFO_EN: u8 = 0x08;
/// `GYRO_Y_FIFO_EN`.
pub const GYRO_Y_FIFO_EN: u8 = 0x04;
/// `GYRO_X_FIFO_EN`.
pub const GYRO_X_FIFO_EN: u8 = 0x02;
/// `TEMP_FIFO_EN`.
pub const TEMP_FIFO_EN: u8 = 0x01;

// Bits of `GYRO_CONFIG_1`.
/// `GYRO_DLPFCFG`.
pub const GYRO_DLPFCFG: u8 = 0x38;
/// `GYRO_FS_SEL`.
pub const GYRO_FS_SEL: u8 = 0x06;
/// `GYRO_FCHOICE`.
pub const GYRO_FCHOICE: u8 = 0x01;

// Bits of `GYRO_CONFIG_2`.
/// `XGYRO_CTEN`.
pub const XGYRO_CTEN: u8 = 0x20;
/// `YGYRO_CTEN`.
pub const YGYRO_CTEN: u8 = 0x10;
/// `ZGYRO_CTEN`.
pub const ZGYRO_CTEN: u8 = 0x08;

// Bits of `ODR_ALIGN_EN`.
/// `ODR_ALIGN`.
pub const ODR_ALIGN: u8 = 0x01;

// Bits of `ACCEL_INTEL_CTRL`.
/// `ACCEL_INTEL_EN`.
pub const ACCEL_INTEL_EN: u8 = 0x02;
/// `ACCEL_INTEL_MODE_INT`.
pub const ACCEL_INTEL_MODE_INT: u8 = 0x01;

// Bits of `ACCEL_CONFIG`.
/// `ACCEL_DLPFCFG`.
pub const ACCEL_DLPFCFG: u8 = 0x38;
/// `ACCEL_FS_SEL`.
pub const ACCEL_FS_SEL: u8 = 0x06;
/// `ACCEL_FCHOICE`.
pub const ACCEL_FCHOICE: u8 = 0x01;

// Bits of `ACCEL_CONFIG_2`.
/// `AX_ST_EN`.
pub const AX_ST_EN: u8 = 0x10;
/// `AY_ST_EN`.
pub const AY_ST_EN: u8 = 0x08;
/// `AZ_ST_EN`.
pub const AZ_ST_EN: u8 = 0x04;

// Bits of `MOD_CTRL_USR`.
/// `REG_LP_DMP_EN`.
pub const REG_LP_DMP_EN: u8 = 0x01;

// Bits of `I2C_MST_CTRL`.
/// `I2C_MST_P_NSR`.
pub const I2C_MST_P_NSR: u8 = 0x10;
/// `I2C_MST_CLK`.
pub const I2C_MST_CLK: u8 = 0x0F;

// Bits of the slave registers.
/// `I2C_SLV_RNW`, read rather than write, in `I2C_SLVn_ADDR`.
pub const I2C_SLV_RNW: u8 = 0x80;
/// `I2C_SLV_EN`, in `I2C_SLVn_CTRL`.
pub const I2C_SLV_EN: u8 = 0x80;
/// `I2C_SLV_BYTE_SW`, in `I2C_SLV0_CTRL`.
pub const I2C_SLV_BYTE_SW: u8 = 0x40;
/// `I2C_SLV_GRP`, in `I2C_SLV0_CTRL`.
pub const I2C_SLV_GRP: u8 = 0x10;

/// The five FIFOs, as `FIFO_RST`, `FIFO_MODE`, `INT_ENABLE_2`, `INT_ENABLE_3`,
/// `INT_STATUS_2` and `INT_STATUS_3` number them.
pub const ALL_FIFOS: u8 = 0x1F;

} // verus!
