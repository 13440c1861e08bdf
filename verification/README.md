# icm20948

A verified driver for the ICM-20948 nine-axis motion sensor and the AK09916
magnetometer inside it.

`src/` is the driver. It talks to the chip through `interface::Interface` and waits
with `interface::Delay`. Each method's contract is a *script*: the accesses it makes, in
order and with the pauses between them, what it does with each answer, and where it
stops when the bus fails. On top of the scripts stand laws, such as that every access
finds the bank of its register selected, and that what is set is what is read back.

| Module | What it holds |
| --- | --- |
| `interface` | the bus and the clock; I2C and SPI frames |
| `script` | models, runs and steps, which the contracts are written in |
| `registers` | the register map |
| `device` | the driver: bank selection, register accesses, identification |
| `sensors`, `calibration` | settings; what a calibration makes of its samples |
| `accelerometer`, `gyroscope`, `magnetometer` | the three sensors |
| `fifo`, `interrupt`, `power` | FIFO, interrupts, power |
| `dmp` | the digital motion processor |
| `nonblocking`, `transcript` | the driver for programs that await |
| `chip` | laws on what the chip holds and what is read back |
| `startup` | laws on how the magnetometer is set up |

`app/` puts `embedded-hal` buses under the driver, turns counts into physical units, and
offers the driver as async methods. It holds what is floating point or input and output,
and is not verified.

A step of a script, such as `Run::put`, is opaque, so that a long script stays cheap to
reason about. To compute a script on known answers, reveal the steps it is made of.

Firmware for the motion processor, the writes that configure it, and the parsers of its
packets and of FIFO records are not part of the crate: the methods take them as
arguments.
