//! Bus transports, modelled at their boundary.
//!
//! The protocol engines in this crate drive two kinds of remote peripherals:
//! ignition targets behind a mapped register window, and a switch/PHY complex
//! behind a framed full-duplex serial bus.  Both transports are collaborators
//! of the protocol layer, not part of it, so they appear here as traits.  Each
//! trait carries a ghost history of the operations performed on the bus; the
//! protocol contracts are stated over that history, which is what lets the
//! retry and framing behaviour of the engines be pinned down exactly, for any
//! transport an embedder supplies.
//!
//! Hardware promises nothing about the values it returns, so the method
//! contracts only say how the history grows; what the protocol layer does
//! with the returned values is specified (and proved) in the protocol
//! modules.

use vstd::prelude::*;

verus! {

/// One operation performed on a mapped register window.
#[allow(inconsistent_fields)]
pub enum FpgaEvent {
    /// A one-byte register read that returned `value`.
    Read8 { addr: u16, value: u8 },
    /// A two-byte register read that returned `value` (the register's value;
    /// the transport normalises bus byte order).
    Read16 { addr: u16, value: u16 },
    /// A four-byte register read that returned `value`.
    Read32 { addr: u16, value: u32 },
    /// A block read of `data.len()` bytes starting at `addr`.
    ReadBytes { addr: u16, data: Seq<u8> },
    /// A one-byte register write.
    Write8 { addr: u16, value: u8 },
    /// A block write of `data` starting at `addr`.
    WriteBytes { addr: u16, data: Seq<u8> },
}

/// The mapped register window transport failed at the framing layer.
#[derive(Clone, Copy, Debug, PartialEq, Eq, Structural)]
pub struct FpgaFault;

/// A mapped register window: byte-addressed registers of one remote device.
///
/// A faulted operation leaves no trace in the history; a successful one
/// appends exactly its event.  Nothing is assumed about the values read:
/// the remote device is the sole source of truth and may answer anything.
pub trait FpgaBus: Sized {
    /// The operations performed on this bus so far, oldest first.
    spec fn hist(&self) -> Seq<FpgaEvent>;

    fn read_u8(&mut self, addr: u16) -> (r: Result<u8, FpgaFault>)
        ensures
            match r {
                Ok(v) => final(self).hist() == old(self).hist().push(
                    (FpgaEvent::Read8 { addr, value: v }),
                ),
                Err(_) => final(self).hist() == old(self).hist(),
            },
    ;

    fn read_u16(&mut self, addr: u16) -> (r: Result<u16, FpgaFault>)
        ensures
            match r {
                Ok(v) => final(self).hist() == old(self).hist().push(
                    (FpgaEvent::Read16 { addr, value: v }),
                ),
                Err(_) => final(self).hist() == old(self).hist(),
            },
    ;

    fn read_u32(&mut self, addr: u16) -> (r: Result<u32, FpgaFault>)
        ensures
            match r {
                Ok(v) => final(self).hist() == old(self).hist().push(
                    (FpgaEvent::Read32 { addr, value: v }),
                ),
                Err(_) => final(self).hist() == old(self).hist(),
            },
    ;

    fn read_bytes(&mut self, addr: u16, len: usize) -> (r: Result<Vec<u8>, FpgaFault>)
        ensures
            match r {
                Ok(data) => data@.len() == len && final(self).hist() == old(self).hist().push(
                    (FpgaEvent::ReadBytes { addr, data: data@ }),
                ),
                Err(_) => final(self).hist() == old(self).hist(),
            },
    ;

    fn write_u8(&mut self, addr: u16, value: u8) -> (r: Result<(), FpgaFault>)
        ensures
            match r {
                Ok(()) => final(self).hist() == old(self).hist().push(
                    (FpgaEvent::Write8 { addr, value }),
                ),
                Err(_) => final(self).hist() == old(self).hist(),
            },
    ;

    fn write_bytes(&mut self, addr: u16, data: &Vec<u8>) -> (r: Result<(), FpgaFault>)
        ensures
            match r {
                Ok(()) => final(self).hist() == old(self).hist().push(
                    (FpgaEvent::WriteBytes { addr, data: data@ }),
                ),
                Err(_) => final(self).hist() == old(self).hist(),
            },
    ;

    /// Pause for `ticks` time units before the next operation.  Delays are
    /// policy, not protocol data, so they leave no trace in the history.
    fn sleep(&mut self, ticks: u32)
        ensures
            final(self).hist() == old(self).hist(),
    ;
}

/// One operation performed on the framed serial bus.
pub enum SpiEvent {
    /// A full-duplex exchange: `tx` was sent, `rx` was received.
    Exchange { tx: Seq<u8>, rx: Seq<u8> },
    /// A write-only frame: `tx` was sent, nothing was read back.
    Write { tx: Seq<u8> },
}

/// The serial bus transport failed at the physical or framing layer.
#[derive(Clone, Copy, Debug, PartialEq, Eq, Structural)]
pub struct SpiFault;

/// A byte-oriented full-duplex exchange primitive.
///
/// As with [`FpgaBus`], a faulted operation leaves no trace and a successful
/// one appends exactly its event; the bytes received are unconstrained.
pub trait SpiBus: Sized {
    /// The operations performed on this bus so far, oldest first.
    spec fn hist(&self) -> Seq<SpiEvent>;

    fn exchange(&mut self, tx: &Vec<u8>, rx_len: usize) -> (r: Result<Vec<u8>, SpiFault>)
        ensures
            match r {
                Ok(rx) => rx@.len() == rx_len && final(self).hist() == old(self).hist().push(
                    (SpiEvent::Exchange { tx: tx@, rx: rx@ }),
                ),
                Err(_) => final(self).hist() == old(self).hist(),
            },
    ;

    fn write(&mut self, tx: &Vec<u8>) -> (r: Result<(), SpiFault>)
        ensures
            match r {
                Ok(()) => final(self).hist() == old(self).hist().push(
                    (SpiEvent::Write { tx: tx@ }),
                ),
                Err(_) => final(self).hist() == old(self).hist(),
            },
    ;
}

/// A sequence extended by `push` keeps its old elements as a prefix.
pub proof fn lemma_push_prefix<E>(h: Seq<E>, e: E)
    ensures
        h.is_prefix_of(h.push(e)),
{
    assert(h =~= h.push(e).subrange(0, h.len() as int));
}

/// Prefixes compose.
pub proof fn lemma_prefix_trans<E>(a: Seq<E>, b: Seq<E>, c: Seq<E>)
    requires
        a.is_prefix_of(b),
        b.is_prefix_of(c),
    ensures
        a.is_prefix_of(c),
{
    assert(a =~= c.subrange(0, a.len() as int));
}

/// A prefix agrees with the longer sequence at every index it has.
pub proof fn lemma_prefix_index<E>(a: Seq<E>, b: Seq<E>, i: int)
    requires
        a.is_prefix_of(b),
        0 <= i < a.len(),
    ensures
        b[i] == a[i],
{
}

} // verus!
