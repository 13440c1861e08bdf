//! The two things outside the driver: the bus that carries register accesses,
//! and the clock that it waits on.
//!
//! A bus is described by three histories. Its [`Interface::log`] lists the
//! accesses made on it so far, and its [`Interface::waits`] the pauses between them that
//! it was told of. Its [`Interface::world`] says what each access
//! brings, the first, the second and so on: nobody knows it beforehand, but
//! with a name for it a contract can say what the driver does with the answers.

use vstd::prelude::*;

use crate::{I2C_ADDRESS_AD0_HIGH, I2C_ADDRESS_AD0_LOW};

verus! {

/// What one access brings: the bytes that come back, and whether the bus
/// carried it out.
pub struct Outcome<E> {
    /// The bytes that come back on a read.
    pub bytes: Seq<u8>,
    /// Whether the bus carried out the access.
    pub result: Result<(), E>,
}

impl<E> Outcome<E> {
    /// The first `len` bytes that come back, with zeros behind the last.
    pub open spec fn data(self, len: nat) -> Seq<u8> {
        Seq::new(len, |i: int| if 0 <= i < self.bytes.len() { self.bytes[i] } else { 0u8 })
    }
}

/// What each access on a bus brings, by its number, counted from 0.
pub struct World<E> {
    /// The outcome of the access with the given number.
    pub outcomes: spec_fn(nat) -> Outcome<E>,
}

impl<E> World<E> {
    /// The outcome of access number `n`.
    pub open spec fn at(self, n: nat) -> Outcome<E> {
        (self.outcomes)(n)
    }
}

/// One access that was made on a bus.
pub enum Access<E> {
    /// A register was read.
    Read {
        /// The register's address.
        address: u8,
        /// The size that the driver gave, in bits.
        size_bits: u32,
        /// The bytes that came back.
        data: Seq<u8>,
        /// What the bus reported.
        result: Result<(), E>,
    },
    /// A register was written.
    Write {
        /// The register's address.
        address: u8,
        /// The size that the driver gave, in bits.
        size_bits: u32,
        /// The bytes that were handed over.
        data: Seq<u8>,
        /// What the bus reported.
        result: Result<(), E>,
    },
}

/// The accesses made on a bus, in order.
pub type Accesses<E> = Seq<Access<E>>;

/// A pause that a bus was told of.
pub struct Wait {
    /// How many accesses were made on the bus before it.
    pub position: nat,
    /// The pause.
    pub pause: Pause,
}

/// The pauses that a bus was told of, in order.
pub type Waits = Seq<Wait>;

/// A bus that reads and writes registers with an 8-bit address.
pub trait Interface: Sized {
    /// What the bus reports when an access fails.
    type Error;

    /// What each access brings.
    spec fn world(&self) -> World<Self::Error>;

    /// The accesses made so far.
    spec fn log(&self) -> Accesses<Self::Error>;

    /// The pauses told of so far.
    spec fn waits(&self) -> Waits;

    /// Reads the register at `address` into `data`.
    fn read_register(&mut self, address: u8, size_bits: u32, data: &mut [u8]) -> (res: Result<
        (),
        Self::Error,
    >)
        ensures
            final(self).world() == old(self).world(),
            final(self).waits() == old(self).waits(),
            ({
                let outcome = old(self).world().at(old(self).log().len());
                &&& res == outcome.result
                &&& final(data)@ == outcome.data(old(data)@.len())
                &&& final(self).log() == old(self).log().push(
                    Access::Read {
                        address,
                        size_bits,
                        data: outcome.data(old(data)@.len()),
                        result: outcome.result,
                    },
                )
            }),
    ;

    /// Writes `data` to the register at `address`.
    fn write_register(&mut self, address: u8, size_bits: u32, data: &[u8]) -> (res: Result<
        (),
        Self::Error,
    >)
        ensures
            final(self).world() == old(self).world(),
            final(self).waits() == old(self).waits(),
            ({
                let outcome = old(self).world().at(old(self).log().len());
                &&& res == outcome.result
                &&& final(self).log() == old(self).log().push(
                    Access::Write { address, size_bits, data: data@, result: outcome.result },
                )
            }),
    ;

    /// Is told of a pause that the driver makes now. A bus that carries out
    /// accesses at once has nothing to do here; one that takes them down for later
    /// learns where the pause belongs.
    fn note_pause(&mut self, pause: Pause)
        ensures
            final(self).world() == old(self).world(),
            final(self).log() == old(self).log(),
            final(self).waits() == old(self).waits().push(
                Wait { position: old(self).log().len(), pause },
            ),
    ;
}

/// How long a pause is.
#[derive(Debug, Clone, Copy, PartialEq, Eq, Structural)]
pub enum Pause {
    /// Milliseconds.
    Ms(u32),
    /// Microseconds.
    Us(u32),
    /// Runs of the processor's spin hint.
    Spin(u32),
}

/// The pauses that a delay provider made, in order.
pub type Pauses = Seq<Pause>;

/// Something that can wait.
pub trait Delay {
    /// The pauses made so far.
    spec fn log(&self) -> Pauses;

    /// Waits `ms` milliseconds.
    fn delay_ms(&mut self, ms: u32)
        ensures
            final(self).log() == old(self).log().push(Pause::Ms(ms)),
    ;

    /// Waits `us` microseconds.
    fn delay_us(&mut self, us: u32)
        ensures
            final(self).log() == old(self).log().push(Pause::Us(us)),
    ;
}

/// The most data bytes that one bus frame holds.
pub const MAX_FRAME_DATA: usize = 32;

/// The frame that writes `data` to a register: the address byte, then the
/// data, cut off after [`MAX_FRAME_DATA`] bytes.
pub open spec fn frame(address: u8, data: Seq<u8>) -> Seq<u8> {
    seq![address] + data.take(
        if data.len() < MAX_FRAME_DATA {
            data.len() as int
        } else {
            MAX_FRAME_DATA as int
        },
    )
}

/// Builds the frame of [`frame`].
fn build_frame(address: u8, data: &[u8]) -> (bytes: Vec<u8>)
    ensures
        bytes@ == frame(address, data@),
{
    let len: usize = if data.len() < MAX_FRAME_DATA {
        data.len()
    } else {
        MAX_FRAME_DATA
    };
    let mut bytes: Vec<u8> = Vec::new();
    bytes.push(address);
    let mut i: usize = 0;
    while i < len
        invariant
            i <= len <= data@.len(),
            bytes@ == seq![address] + data@.take(i as int),
        decreases len - i,
    {
        bytes.push(data[i]);
        i += 1;
    }
    bytes
}

/// An I2C bus and the chip's address on it.
pub struct I2cInterface<I2C> {
    i2c: I2C,
    address: u8,
}

impl<I2C> I2cInterface<I2C> {
    /// The bus behind the interface.
    pub closed spec fn bus(self) -> I2C {
        self.i2c
    }

    /// The address of the chip.
    pub closed spec fn spec_address(self) -> u8 {
        self.address
    }

    /// The chip at the default address, with the AD0 pin low.
    pub fn default(i2c: I2C) -> (interface: Self)
        ensures
            interface.bus() == i2c,
            interface.spec_address() == 0x68,
    {
        I2cInterface { i2c, address: I2C_ADDRESS_AD0_LOW }
    }

    /// The chip at the alternative address, with the AD0 pin high.
    pub fn alternative(i2c: I2C) -> (interface: Self)
        ensures
            interface.bus() == i2c,
            interface.spec_address() == 0x69,
    {
        I2cInterface { i2c, address: I2C_ADDRESS_AD0_HIGH }
    }

    /// The chip at an address of the caller's choice.
    pub fn new(i2c: I2C, address: u8) -> (interface: Self)
        ensures
            interface.bus() == i2c,
            interface.spec_address() == address,
    {
        I2cInterface { i2c, address }
    }

    /// Gives the bus back.
    pub fn release(self) -> (i2c: I2C)
        ensures
            i2c == self.bus(),
    {
        self.i2c
    }

    /// The address that every transfer on the bus is directed to.
    pub fn address(&self) -> (address: u8)
        ensures
            address == self.spec_address(),
    {
        self.address
    }

    /// The bus, for a transfer.
    pub fn bus_mut(&mut self) -> (i2c: &mut I2C)
        ensures
            *i2c == old(self).bus(),
            final(self).bus() == *final(i2c),
            final(self).spec_address() == old(self).spec_address(),
    {
        &mut self.i2c
    }

    /// The bytes that are sent before a register is read: its address.
    pub fn read_frame(&self, register: u8) -> (bytes: Vec<u8>)
        ensures
            bytes@ == seq![register],
    {
        let mut bytes: Vec<u8> = Vec::new();
        bytes.push(register);
        bytes
    }

    /// The bytes that are sent to write `data` to a register.
    pub fn write_frame(&self, register: u8, data: &[u8]) -> (bytes: Vec<u8>)
        ensures
            bytes@ == frame(register, data@),
    {
        build_frame(register, data)
    }
}

/// An SPI device, which selects the chip by itself.
pub struct SpiInterface<SPI> {
    spi: SPI,
}

impl<SPI> SpiInterface<SPI> {
    /// The device behind the interface.
    pub closed spec fn bus(self) -> SPI {
        self.spi
    }

    /// The chip on an SPI device.
    pub fn new(spi: SPI) -> (interface: Self)
        ensures
            interface.bus() == spi,
    {
        SpiInterface { spi }
    }

    /// Gives the SPI device back.
    pub fn release(self) -> (spi: SPI)
        ensures
            spi == self.bus(),
    {
        self.spi
    }

    /// The device, for a transfer.
    pub fn bus_mut(&mut self) -> (spi: &mut SPI)
        ensures
            *spi == old(self).bus(),
            final(self).bus() == *final(spi),
    {
        &mut self.spi
    }

    /// The bytes that are sent before a register is read: its address with the
    /// top bit set.
    pub fn read_frame(&self, register: u8) -> (bytes: Vec<u8>)
        ensures
            bytes@ == seq![register | 0x80],
    {
        let mut bytes: Vec<u8> = Vec::new();
        bytes.push(register | 0x80);
        bytes
    }

    /// The bytes that are sent to write `data` to a register: the top bit of
    /// the address is clear.
    pub fn write_frame(&self, register: u8, data: &[u8]) -> (bytes: Vec<u8>)
        ensures
            bytes@ == frame(register & 0x7F, data@),
    {
        build_frame(register & 0x7F, data)
    }
}

/// A frame is the address and then the data, byte by byte, as far as a frame holds it.
pub proof fn frame_is_address_and_data(address: u8, data: Seq<u8>)
    ensures
        ({
            let bytes = frame(address, data);
            &&& bytes.len() == 1 + if data.len() <= 32 {
                data.len() as int
            } else {
                32
            }
            &&& bytes[0] == address
            &&& forall|i: int| 1 <= i < bytes.len() ==> #[trigger] bytes[i] == data[i - 1]
        }),
{
}

/// A read and a write over SPI are told apart by the top bit of the first byte,
/// and the seven bits below it name the same register.
pub proof fn spi_direction_bit(register: u8)
    ensures
        (register | 0x80) & 0x80 == 0x80,
        (register & 0x7F) & 0x80 == 0,
        (register | 0x80) & 0x7F == register & 0x7F,
{
    assert((register | 0x80) & 0x80 == 0x80) by (bit_vector);
    assert((register & 0x7F) & 0x80 == 0) by (bit_vector);
    assert((register | 0x80) & 0x7F == register & 0x7F) by (bit_vector);
}

} // verus!
