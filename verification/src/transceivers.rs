//! QSFP transceiver management.
//!
//! The front-IO board carries 32 QSFP-DD transceivers, 16 behind each of two
//! FPGAs.  Each FPGA exposes per-port status words (presence, power good,
//! power-good timeout, receive loss-of-signal interrupt), each 16 bits wide
//! with one bit per port; the two halves are combined into one 32-bit word
//! with FPGA 0's ports in the low half.  A small I2C proxy request register
//! starts reads of the transceivers' management interfaces, broadcast to a
//! mask of ports.

use vstd::prelude::*;

use crate::transport::{FpgaBus, FpgaEvent, FpgaFault};

verus! {

// Register map of the front-IO FPGA design.

/// Per-port presence status (active low), 16 ports per FPGA.
pub const QSFP_STATUS_PRESENT_L: u16 = 0x10;

/// Per-port power good status (active low).
pub const QSFP_STATUS_PG_L: u16 = 0x12;

/// Per-port power good timeout status (active low).
pub const QSFP_STATUS_PG_TIMEOUT_L: u16 = 0x14;

/// Per-port interrupt / receive loss-of-signal status (active low).
pub const QSFP_STATUS_IRQ_L: u16 = 0x16;

/// The I2C proxy request register block.
pub const QSFP_I2C_REG_ADDR: u16 = 0x20;

/// Read buffer of port 0's I2C proxy.
pub const QSFP_PORT0_READ_BUFFER: u16 = 0x40;

/// Control bit starting an I2C proxy operation.
pub const I2C_CTRL_START: u8 = 0x01;

/// Errors reported by the transceiver management layer.
#[derive(Clone, Copy, Debug, PartialEq, Eq, Structural)]
pub enum TransceiversError {
    /// The register window transport failed.
    FpgaError,
    /// A port number outside the 32 ports was named.
    InvalidPortNumber,
    /// A byte count the I2C proxy cannot serve was named.
    InvalidNumberOfBytes,
}

impl From<FpgaFault> for TransceiversError {
    fn from(_fault: FpgaFault) -> (r: Self) {
        TransceiversError::FpgaError
    }
}

impl vstd::std_specs::convert::FromSpecImpl<FpgaFault> for TransceiversError {
    open spec fn obeys_from_spec() -> bool {
        true
    }

    open spec fn from_spec(fault: FpgaFault) -> Self {
        TransceiversError::FpgaError
    }
}

/// An operation of the per-port I2C proxy.
#[derive(Clone, Copy, Debug, PartialEq, Eq, Structural)]
pub enum TransceiverI2COperation {
    Read,
    Write,
    /// Start a write to set the register address, then start again to read
    /// at that address.
    RandomRead,
}

/// Encoding of an I2C proxy operation.
pub open spec fn spec_i2c_op_code(op: TransceiverI2COperation) -> u8 {
    match op {
        TransceiverI2COperation::Read => 0,
        TransceiverI2COperation::Write => 1,
        TransceiverI2COperation::RandomRead => 2,
    }
}

impl TransceiverI2COperation {
    /// Exec twin of [`spec_i2c_op_code`].
    pub fn op_code(&self) -> (r: u8)
        ensures
            r == spec_i2c_op_code(*self),
    {
        match self {
            TransceiverI2COperation::Read => 0,
            TransceiverI2COperation::Write => 1,
            TransceiverI2COperation::RandomRead => 2,
        }
    }
}

/// The 5-byte I2C proxy request frame: register, byte count, port broadcast
/// mask big-endian, then the operation/control byte.
pub open spec fn i2c_request_frame(reg: u8, num_bytes: u8, mask: u16, op: u8) -> Seq<u8> {
    seq![reg, num_bytes, ((mask >> 8) & 0xFF) as u8, (mask & 0xFF) as u8, op]
}

/// One I2C proxy request, as written to [`QSFP_I2C_REG_ADDR`].  The
/// broadcast mask covers the 16 ports of one FPGA and travels big-endian on
/// the wire.
#[derive(Clone, Copy, Debug, PartialEq, Eq, Structural)]
pub struct TransceiversI2CRequest {
    pub reg: u8,
    pub num_bytes: u8,
    pub port_bcast_mask: u16,
    pub op: u8,
}

impl TransceiversI2CRequest {
    /// The frame this request puts on the wire.
    pub fn encode(&self) -> (f: Vec<u8>)
        ensures
            f@ == i2c_request_frame(self.reg, self.num_bytes, self.port_bcast_mask, self.op),
    {
        let mut f: Vec<u8> = Vec::new();
        f.push(self.reg);
        f.push(self.num_bytes);
        f.push(#[verifier::truncate] (((self.port_bcast_mask >> 8) & 0xFF) as u8));
        f.push(#[verifier::truncate] ((self.port_bcast_mask & 0xFF) as u8));
        f.push(self.op);
        proof {
            assert(f@ =~= i2c_request_frame(
                self.reg,
                self.num_bytes,
                self.port_bcast_mask,
                self.op,
            ));
        }
        f
    }
}

/// Both FPGAs answered a 16-bit status read of `addr` and the two halves
/// were combined, FPGA 0's in the low half; or one transport faulted, in
/// which case FPGA 1 was never asked.
pub open spec fn status_pair_read(
    f0old: Seq<FpgaEvent>,
    f0new: Seq<FpgaEvent>,
    f1old: Seq<FpgaEvent>,
    f1new: Seq<FpgaEvent>,
    addr: u16,
    r: Result<u32, TransceiversError>,
) -> bool {
    match r {
        Ok(v) => exists |lo: u16, hi: u16|
            {
                &&& f0new == #[trigger] f0old.push((FpgaEvent::Read16 { addr, value: lo }))
                &&& f1new == #[trigger] f1old.push((FpgaEvent::Read16 { addr, value: hi }))
                &&& v == ((hi as u32) << 16) | (lo as u32)
            },
        Err(TransceiversError::FpgaError) => {
            &&& f1new == f1old
            &&& (f0new == f0old || exists |lo: u16|
                f0new == #[trigger] f0old.push((FpgaEvent::Read16 { addr, value: lo })))
        },
        Err(_) => false,
    }
}

/// The transceiver management layer: one handle per front-IO FPGA, 16 QSFP
/// ports behind each.
pub struct Transceivers<B: FpgaBus> {
    /// The FPGA serving ports 0 to 15.
    pub fpga0: B,
    /// The FPGA serving ports 16 to 31.
    pub fpga1: B,
}

impl<B: FpgaBus> Transceivers<B> {
    pub fn new(fpga0: B, fpga1: B) -> (t: Self)
        ensures
            t.fpga0 == fpga0,
            t.fpga1 == fpga1,
    {
        Transceivers { fpga0, fpga1 }
    }

    /// Read one per-port status word from both FPGAs and combine the halves.
    fn read_status_pair(&mut self, addr: u16) -> (r: Result<u32, TransceiversError>)
        ensures
            status_pair_read(
                old(self).fpga0.hist(),
                final(self).fpga0.hist(),
                old(self).fpga1.hist(),
                final(self).fpga1.hist(),
                addr,
                r,
            ),
    {
        let lo = match self.fpga0.read_u16(addr) {
            Ok(v) => v,
            Err(_) => {
                return Err(TransceiversError::FpgaError);
            }
        };
        let hi = match self.fpga1.read_u16(addr) {
            Ok(v) => v,
            Err(_) => {
                return Err(TransceiversError::FpgaError);
            }
        };
        Ok(((hi as u32) << 16) | (lo as u32))
    }

    /// Which ports have a transceiver present, one bit per port.
    pub fn get_presence(&mut self) -> (r: Result<u32, TransceiversError>)
        ensures
            status_pair_read(
                old(self).fpga0.hist(),
                final(self).fpga0.hist(),
                old(self).fpga1.hist(),
                final(self).fpga1.hist(),
                QSFP_STATUS_PRESENT_L,
                r,
            ),
    {
        self.read_status_pair(QSFP_STATUS_PRESENT_L)
    }

    /// Which ports report power good, one bit per port.
    pub fn get_power_good(&mut self) -> (r: Result<u32, TransceiversError>)
        ensures
            status_pair_read(
                old(self).fpga0.hist(),
                final(self).fpga0.hist(),
                old(self).fpga1.hist(),
                final(self).fpga1.hist(),
                QSFP_STATUS_PG_L,
                r,
            ),
    {
        self.read_status_pair(QSFP_STATUS_PG_L)
    }

    /// Which ports timed out waiting for power good, one bit per port.
    pub fn get_power_good_timeout(&mut self) -> (r: Result<u32, TransceiversError>)
        ensures
            status_pair_read(
                old(self).fpga0.hist(),
                final(self).fpga0.hist(),
                old(self).fpga1.hist(),
                final(self).fpga1.hist(),
                QSFP_STATUS_PG_TIMEOUT_L,
                r,
            ),
    {
        self.read_status_pair(QSFP_STATUS_PG_TIMEOUT_L)
    }

    /// Which ports raise the interrupt / receive loss-of-signal flag, one
    /// bit per port.
    pub fn get_irq_rxlos(&mut self) -> (r: Result<u32, TransceiversError>)
        ensures
            status_pair_read(
                old(self).fpga0.hist(),
                final(self).fpga0.hist(),
                old(self).fpga1.hist(),
                final(self).fpga1.hist(),
                QSFP_STATUS_IRQ_L,
                r,
            ),
    {
        self.read_status_pair(QSFP_STATUS_IRQ_L)
    }

    /// Start a broadcast random-read of `num_bytes` bytes at transceiver
    /// register `reg` on every port whose bit is set in `port_bcast_mask`
    /// (one bit per port over both FPGAs): one request frame is written to
    /// each FPGA, carrying its half of the mask.
    pub fn setup_i2c_read(&mut self, reg: u8, num_bytes: u8, port_bcast_mask: u32) -> (r: Result<
        (),
        TransceiversError,
    >)
        ensures
            match r {
                Ok(()) => {
                    &&& final(self).fpga0.hist() == old(self).fpga0.hist().push(
                        (FpgaEvent::WriteBytes {
                            addr: QSFP_I2C_REG_ADDR,
                            data: i2c_request_frame(
                                reg,
                                num_bytes,
                                (port_bcast_mask & 0xFFFF) as u16,
                                (spec_i2c_op_code(TransceiverI2COperation::RandomRead) << 1)
                                    | I2C_CTRL_START,
                            ),
                        }),
                    )
                    &&& final(self).fpga1.hist() == old(self).fpga1.hist().push(
                        (FpgaEvent::WriteBytes {
                            addr: QSFP_I2C_REG_ADDR,
                            data: i2c_request_frame(
                                reg,
                                num_bytes,
                                ((port_bcast_mask >> 16) & 0xFFFF) as u16,
                                (spec_i2c_op_code(TransceiverI2COperation::RandomRead) << 1)
                                    | I2C_CTRL_START,
                            ),
                        }),
                    )
                },
                Err(TransceiversError::FpgaError) => {
                    &&& final(self).fpga1.hist() == old(self).fpga1.hist()
                    &&& (final(self).fpga0.hist() == old(self).fpga0.hist()
                        || final(self).fpga0.hist() == old(self).fpga0.hist().push(
                        (FpgaEvent::WriteBytes {
                            addr: QSFP_I2C_REG_ADDR,
                            data: i2c_request_frame(
                                reg,
                                num_bytes,
                                (port_bcast_mask & 0xFFFF) as u16,
                                (spec_i2c_op_code(TransceiverI2COperation::RandomRead) << 1)
                                    | I2C_CTRL_START,
                            ),
                        }),
                    ))
                },
                Err(_) => false,
            },
    {
        let op = (TransceiverI2COperation::RandomRead.op_code() << 1) | I2C_CTRL_START;

        let request = TransceiversI2CRequest {
            reg,
            num_bytes,
            port_bcast_mask: #[verifier::truncate] ((port_bcast_mask & 0xFFFF) as u16),
            op,
        };
        let frame = request.encode();
        match self.fpga0.write_bytes(QSFP_I2C_REG_ADDR, &frame) {
            Ok(()) => {}
            Err(_) => {
                return Err(TransceiversError::FpgaError);
            }
        }

        let request = TransceiversI2CRequest {
            reg,
            num_bytes,
            port_bcast_mask: #[verifier::truncate] (((port_bcast_mask >> 16) & 0xFFFF) as u16),
            op,
        };
        let frame = request.encode();
        match self.fpga1.write_bytes(QSFP_I2C_REG_ADDR, &frame) {
            Ok(()) => {}
            Err(_) => {
                return Err(TransceiversError::FpgaError);
            }
        }

        Ok(())
    }

    /// Fetch `len` bytes from the I2C proxy read buffer of `port`: ports
    /// 0 to 15 live behind FPGA 0, the rest behind FPGA 1.
    pub fn get_i2c_read_buffer(&mut self, port: usize, len: usize) -> (r: Result<
        Vec<u8>,
        TransceiversError,
    >)
        ensures
            match r {
                Ok(data) => data@.len() == len && if port < 16 {
                    final(self).fpga0.hist() == old(self).fpga0.hist().push(
                        (FpgaEvent::ReadBytes { addr: QSFP_PORT0_READ_BUFFER, data: data@ }),
                    ) && final(self).fpga1.hist() == old(self).fpga1.hist()
                } else {
                    final(self).fpga1.hist() == old(self).fpga1.hist().push(
                        (FpgaEvent::ReadBytes { addr: QSFP_PORT0_READ_BUFFER, data: data@ }),
                    ) && final(self).fpga0.hist() == old(self).fpga0.hist()
                },
                Err(TransceiversError::FpgaError) => final(self).fpga0.hist()
                    == old(self).fpga0.hist() && final(self).fpga1.hist()
                    == old(self).fpga1.hist(),
                Err(_) => false,
            },
    {
        let res = if port < 16 {
            self.fpga0.read_bytes(QSFP_PORT0_READ_BUFFER, len)
        } else {
            self.fpga1.read_bytes(QSFP_PORT0_READ_BUFFER, len)
        };
        match res {
            Ok(data) => Ok(data),
            Err(_) => Err(TransceiversError::FpgaError),
        }
    }
}

} // verus!
