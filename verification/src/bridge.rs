//! The register bus bridge.
//!
//! The switch chip exposes a 32-bit register space over a framed full-duplex
//! serial bus.  The bridge turns a typed register address into a byte frame,
//! runs the exchange, and decodes the reply: a read sends the 3-byte
//! word-aligned address and receives 8 bytes (3 echoed address bytes, one
//! byte of padding, 4 data bytes big-endian); a write sends 7 bytes (the
//! address with the write-indicator bit set in its high byte, then the value
//! big-endian) and reads nothing back.
//!
//! Addresses must lie inside the device's declared window; violating that is
//! a programming error, so it is a hard precondition of every operation
//! rather than a runtime error.  A read that returns the sentinel pattern
//! [`SENTINEL_WORD`] means the address lines are not connected to live
//! logic; it is surfaced as the dedicated [`VscError::SuspiciousRead`]
//! rather than as data.

use vstd::prelude::*;

use crate::transport::{SpiBus, SpiEvent};

verus! {

/// Lowest address of the switch's register window.
pub const WINDOW_LOWER: u32 = 0x71000000;

/// Highest address of the switch's register window.
pub const WINDOW_UPPER: u32 = 0x72000000;

/// A read returning this pattern signals a hardware integrity fault: the
/// address lines are not driven by live logic.
pub const SENTINEL_WORD: u32 = 0x88888888;

/// Errors reported by the bridge and the paged PHY protocol above it.
#[derive(Clone, Copy, Debug, PartialEq, Eq, Structural)]
pub enum VscError {
    /// The serial bus transport failed; never retried by this layer.
    SpiFault,
    /// A read returned [`SENTINEL_WORD`]: a hardware integrity fault,
    /// distinct from ordinary transport errors.
    SuspiciousRead,
    /// The MIIM controller did not become idle within the poll budget.
    MiimIdleTimeout,
    /// A MIIM read did not complete within the poll budget.
    MiimReadTimeout,
    /// The PHY reported an error for a MIIM read; the fields say which
    /// access failed.
    MiimReadErr { miim: u8, phy: u8, page: u16, addr: u8 },
}

impl From<crate::transport::SpiFault> for VscError {
    fn from(_fault: crate::transport::SpiFault) -> (r: Self) {
        VscError::SpiFault
    }
}

impl vstd::std_specs::convert::FromSpecImpl<crate::transport::SpiFault> for VscError {
    open spec fn obeys_from_spec() -> bool {
        true
    }

    open spec fn from_spec(fault: crate::transport::SpiFault) -> Self {
        VscError::SpiFault
    }
}

/// An absolute register address of the switch's 32-bit register space.
#[derive(Clone, Copy, Debug, PartialEq, Eq, Structural)]
pub struct RegisterAddress {
    pub addr: u32,
}

impl RegisterAddress {
    pub fn new(addr: u32) -> (r: Self)
        ensures
            r.addr == addr,
    {
        RegisterAddress { addr }
    }
}

/// The address lies inside the declared device window.
pub open spec fn addr_in_window(addr: u32) -> bool {
    WINDOW_LOWER <= addr <= WINDOW_UPPER
}

/// Exec check of [`addr_in_window`], the last line of defense embedders can
/// run before handing an address to the bridge.
pub fn window_contains(addr: u32) -> (r: bool)
    ensures
        r == addr_in_window(addr),
{
    WINDOW_LOWER <= addr && addr <= WINDOW_UPPER
}

/// The word index sent on the bus: the address inside the window, divided by
/// the word size.
pub open spec fn word_index(addr: u32) -> u32 {
    (addr & 0x00FFFFFF) >> 2
}

/// The 3-byte frame requesting a read of `addr`: the word index, big-endian,
/// with the write-indicator bit clear.
pub open spec fn read_frame(addr: u32) -> Seq<u8> {
    seq![
        ((word_index(addr) >> 16) & 0xFF) as u8,
        ((word_index(addr) >> 8) & 0xFF) as u8,
        (word_index(addr) & 0xFF) as u8,
    ]
}

/// The 7-byte frame writing `value` to `addr`: the word index big-endian
/// with the write-indicator bit `0x80` set in the first byte, then the value
/// big-endian.
pub open spec fn write_frame(addr: u32, value: u32) -> Seq<u8> {
    seq![
        0x80u8 | (((word_index(addr) >> 16) & 0xFF) as u8),
        ((word_index(addr) >> 8) & 0xFF) as u8,
        (word_index(addr) & 0xFF) as u8,
        ((value >> 24) & 0xFF) as u8,
        ((value >> 16) & 0xFF) as u8,
        ((value >> 8) & 0xFF) as u8,
        (value & 0xFF) as u8,
    ]
}

/// The register value carried by an 8-byte read reply: the last four bytes,
/// big-endian.
pub open spec fn reply_word(rx: Seq<u8>) -> u32
    recommends
        rx.len() == 8,
{
    (rx[7] as u32) | ((rx[6] as u32) << 8) | ((rx[5] as u32) << 16) | ((rx[4] as u32) << 24)
}

/// The history grew by exactly one read exchange of register `addr` whose
/// reply carried `v`.
pub open spec fn reads_register(
    h0: Seq<SpiEvent>,
    h1: Seq<SpiEvent>,
    addr: u32,
    v: u32,
) -> bool {
    &&& h1.len() == h0.len() + 1
    &&& h0.is_prefix_of(h1)
    &&& (h1.last() matches SpiEvent::Exchange { tx, rx } && tx == read_frame(addr) && rx.len()
        == 8 && v == reply_word(rx))
}

/// The history grew by exactly one write frame carrying `v` to register
/// `addr`.
pub open spec fn writes_register(
    h0: Seq<SpiEvent>,
    h1: Seq<SpiEvent>,
    addr: u32,
    v: u32,
) -> bool {
    h1 == h0.push((SpiEvent::Write { tx: write_frame(addr, v) }))
}

/// Helper struct to read and write the switch's registers over the serial
/// bus.  The bus handle is exclusively owned: operations on one bridge are
/// strictly sequential, and `modify` performs an unfenced read-then-write,
/// so concurrent owners must synchronise externally.
pub struct Vsc7448Spi<B: SpiBus> {
    /// The framed serial bus transport.
    pub bus: B,
}

impl<B: SpiBus> Vsc7448Spi<B> {
    pub fn new(bus: B) -> (r: Self)
        ensures
            r.bus == bus,
    {
        Vsc7448Spi { bus }
    }

    /// Build the 3-byte read request frame for `addr`.
    fn build_read_frame(addr: u32) -> (f: Vec<u8>)
        ensures
            f@ == read_frame(addr),
    {
        let w = (addr & 0x00FFFFFF) >> 2;
        let mut f: Vec<u8> = Vec::new();
        f.push(#[verifier::truncate] (((w >> 16) & 0xFF) as u8));
        f.push(#[verifier::truncate] (((w >> 8) & 0xFF) as u8));
        f.push(#[verifier::truncate] ((w & 0xFF) as u8));
        proof {
            assert(f@ =~= read_frame(addr));
        }
        f
    }

    /// Build the 7-byte write frame carrying `value` to `addr`.
    fn build_write_frame(addr: u32, value: u32) -> (f: Vec<u8>)
        ensures
            f@ == write_frame(addr, value),
    {
        let w = (addr & 0x00FFFFFF) >> 2;
        let mut f: Vec<u8> = Vec::new();
        f.push(0x80u8 | (#[verifier::truncate] (((w >> 16) & 0xFF) as u8)));
        f.push(#[verifier::truncate] (((w >> 8) & 0xFF) as u8));
        f.push(#[verifier::truncate] ((w & 0xFF) as u8));
        f.push(#[verifier::truncate] (((value >> 24) & 0xFF) as u8));
        f.push(#[verifier::truncate] (((value >> 16) & 0xFF) as u8));
        f.push(#[verifier::truncate] (((value >> 8) & 0xFF) as u8));
        f.push(#[verifier::truncate] ((value & 0xFF) as u8));
        proof {
            assert(f@ =~= write_frame(addr, value));
        }
        f
    }

    /// Read a register.  A reply equal to [`SENTINEL_WORD`] is never
    /// returned as data: it is the dedicated integrity fault.
    pub fn read(&mut self, reg: RegisterAddress) -> (r: Result<u32, VscError>)
        requires
            addr_in_window(reg.addr),
        ensures
            match r {
                Ok(v) => reads_register(old(self).bus.hist(), final(self).bus.hist(), reg.addr, v)
                    && v != SENTINEL_WORD,
                Err(VscError::SuspiciousRead) => reads_register(
                    old(self).bus.hist(),
                    final(self).bus.hist(),
                    reg.addr,
                    SENTINEL_WORD,
                ),
                Err(VscError::SpiFault) => final(self).bus.hist() == old(self).bus.hist(),
                Err(_) => false,
            },
    {
        let tx = Self::build_read_frame(reg.addr);
        let ghost h0 = self.bus.hist();
        match self.bus.exchange(&tx, 8) {
            Err(_) => Err(VscError::SpiFault),
            Ok(rx) => {
                let value = (rx[7] as u32) | ((rx[6] as u32) << 8) | ((rx[5] as u32) << 16) | (
                (rx[4] as u32) << 24);
                proof {
                    crate::transport::lemma_push_prefix(
                        h0,
                        (SpiEvent::Exchange { tx: tx@, rx: rx@ }),
                    );
                }
                if value == SENTINEL_WORD {
                    Err(VscError::SuspiciousRead)
                } else {
                    Ok(value)
                }
            }
        }
    }

    /// Write a register, overwriting it entirely; to change part of one, use
    /// [`Self::modify`] instead.
    pub fn write(&mut self, reg: RegisterAddress, value: u32) -> (r: Result<(), VscError>)
        requires
            addr_in_window(reg.addr),
        ensures
            match r {
                Ok(()) => writes_register(
                    old(self).bus.hist(),
                    final(self).bus.hist(),
                    reg.addr,
                    value,
                ),
                Err(VscError::SpiFault) => final(self).bus.hist() == old(self).bus.hist(),
                Err(_) => false,
            },
    {
        let tx = Self::build_write_frame(reg.addr, value);
        match self.bus.write(&tx) {
            Ok(()) => Ok(()),
            Err(_) => Err(VscError::SpiFault),
        }
    }

    /// Write a 53-bit per-port mask split across two adjacent word-aligned
    /// registers: the low 32 bits at `reg`, the next 21 bits at `reg + 4`.
    /// Exactly two writes are issued, in that order; they are not atomic as
    /// a pair, so callers needing atomicity must coordinate externally.
    pub fn write_port_mask(&mut self, reg: RegisterAddress, value: u64) -> (r: Result<
        (),
        VscError,
    >)
        requires
            addr_in_window(reg.addr),
            addr_in_window((reg.addr + 4) as u32),
        ensures
            match r {
                Ok(()) => final(self).bus.hist() == old(self).bus.hist().push(
                    (SpiEvent::Write {
                        tx: write_frame(reg.addr, (value & 0xFFFFFFFF) as u32),
                    }),
                ).push(
                    (SpiEvent::Write {
                        tx: write_frame((reg.addr + 4) as u32, ((value >> 32) & 0x1FFFFF) as u32),
                    }),
                ),
                Err(VscError::SpiFault) => final(self).bus.hist() == old(self).bus.hist()
                    || writes_register(
                    old(self).bus.hist(),
                    final(self).bus.hist(),
                    reg.addr,
                    (value & 0xFFFFFFFF) as u32,
                ),
                Err(_) => false,
            },
    {
        let lo = #[verifier::truncate] ((value & 0xFFFFFFFF) as u32);
        let hi = #[verifier::truncate] (((value >> 32) & 0x1FFFFF) as u32);
        self.write(reg, lo)?;
        let next = RegisterAddress { addr: reg.addr + 4 };
        self.write(next, hi)
    }

    /// Write a register with the value produced by applying `f` to zero, a
    /// way to build a value field by field without reading the register
    /// first.
    pub fn write_with<F: Fn(u32) -> u32>(&mut self, reg: RegisterAddress, f: F) -> (r: Result<
        (),
        VscError,
    >)
        requires
            addr_in_window(reg.addr),
            f.requires((0u32,)),
        ensures
            match r {
                Ok(()) => exists |w: u32|
                    #[trigger] f.ensures((0u32,), w) && writes_register(
                        old(self).bus.hist(),
                        final(self).bus.hist(),
                        reg.addr,
                        w,
                    ),
                Err(VscError::SpiFault) => final(self).bus.hist() == old(self).bus.hist(),
                Err(_) => false,
            },
    {
        let w = f(0);
        self.write(reg, w)
    }

    /// Read-modify-write a register.  This is not compare-and-swap: nothing
    /// fences the write against other writers of the same register.
    pub fn modify<F: Fn(u32) -> u32>(&mut self, reg: RegisterAddress, f: F) -> (r: Result<
        (),
        VscError,
    >)
        requires
            addr_in_window(reg.addr),
            forall |v: u32| f.requires((v,)),
        ensures
            match r {
                Ok(()) => exists |v: u32, w: u32|
                    {
                        &&& #[trigger] f.ensures((v,), w)
                        &&& v != SENTINEL_WORD
                        &&& reads_register(
                            old(self).bus.hist(),
                            final(self).bus.hist().drop_last(),
                            reg.addr,
                            v,
                        )
                        &&& final(self).bus.hist() == final(self).bus.hist().drop_last().push(
                            (SpiEvent::Write { tx: write_frame(reg.addr, w) }),
                        )
                    },
                Err(VscError::SuspiciousRead) => reads_register(
                    old(self).bus.hist(),
                    final(self).bus.hist(),
                    reg.addr,
                    SENTINEL_WORD,
                ),
                Err(VscError::SpiFault) => final(self).bus.hist() == old(self).bus.hist() || (
                exists |v: u32| #![auto]
                    v != SENTINEL_WORD && reads_register(
                        old(self).bus.hist(),
                        final(self).bus.hist(),
                        reg.addr,
                        v,
                    )),
                Err(_) => false,
            },
    {
        let ghost h0 = self.bus.hist();
        let v = self.read(reg)?;
        let ghost hmid = self.bus.hist();
        let w = f(v);
        let res = self.write(reg, w);
        proof {
            if res is Ok {
                assert(self.bus.hist().drop_last() =~= hmid);
            }
        }
        res
    }
}

} // verus!
