//! Scripted bus transports.
//!
//! The protocol engines are generic over the bus traits of [`transport`];
//! these implementations answer from a fixed script instead of hardware, so
//! that the engines can be exercised deterministically: replies are consumed
//! in order, a configurable fallback answers once the script runs out, and
//! [`ScriptedReply::Fault`] entries inject transport faults.  Every operation
//! is also recorded in plain logs that an embedder or a test can inspect —
//! which frames were written, how many polls were made, what was slept.
//!
//! [`transport`]: crate::transport

use vstd::prelude::*;

use crate::transport::{FpgaBus, FpgaEvent, FpgaFault, SpiBus, SpiEvent, SpiFault};

verus! {

/// One scripted answer to a read or exchange.
#[derive(Clone, Copy, Debug, PartialEq, Eq, Structural)]
pub enum ScriptedReply {
    /// Answer with this register value (truncated to the width read).
    Value(u32),
    /// Fail the operation with a transport fault.
    Fault,
}

/// A mapped register window that answers from a script.
pub struct ScriptedFpgaBus {
    replies: Vec<ScriptedReply>,
    next: usize,
    fallback: u32,
    writes_fail: bool,
    /// Addresses of all reads attempted, in order, faulted ones included.
    pub read_log: Vec<u16>,
    /// Address/value pairs of all one-byte writes attempted, in order.
    pub write8_log: Vec<(u16, u8)>,
    /// Address/frame pairs of all block writes attempted, in order.
    pub write_bytes_log: Vec<(u16, Vec<u8>)>,
    /// Tick counts of all sleeps, in order.
    pub sleep_log: Vec<u32>,
    events: Ghost<Seq<FpgaEvent>>,
}

impl ScriptedFpgaBus {
    /// A bus that answers reads from `replies` in order, then with
    /// `fallback` forever; writes fault iff `writes_fail`.
    pub fn new(replies: Vec<ScriptedReply>, fallback: u32, writes_fail: bool) -> (b: Self)
        ensures
            b.hist() == Seq::<FpgaEvent>::empty(),
    {
        ScriptedFpgaBus {
            replies,
            next: 0,
            fallback,
            writes_fail,
            read_log: Vec::new(),
            write8_log: Vec::new(),
            write_bytes_log: Vec::new(),
            sleep_log: Vec::new(),
            events: Ghost(Seq::empty()),
        }
    }

    /// The next scripted answer, consuming one script entry.
    fn take_reply(&mut self) -> (r: ScriptedReply)
        ensures
            final(self).events == old(self).events,
            final(self).read_log == old(self).read_log,
    {
        if self.next < self.replies.len() {
            let r = self.replies[self.next];
            self.next = self.next + 1;
            r
        } else {
            ScriptedReply::Value(self.fallback)
        }
    }
}

impl FpgaBus for ScriptedFpgaBus {
    closed spec fn hist(&self) -> Seq<FpgaEvent> {
        self.events@
    }

    fn read_u8(&mut self, addr: u16) -> (r: Result<u8, FpgaFault>) {
        self.read_log.push(addr);
        match self.take_reply() {
            ScriptedReply::Value(v) => {
                let b = #[verifier::truncate] ((v & 0xFF) as u8);
                self.events = Ghost(self.events@.push((FpgaEvent::Read8 { addr, value: b })));
                Ok(b)
            }
            ScriptedReply::Fault => Err(FpgaFault),
        }
    }

    fn read_u16(&mut self, addr: u16) -> (r: Result<u16, FpgaFault>) {
        self.read_log.push(addr);
        match self.take_reply() {
            ScriptedReply::Value(v) => {
                let b = #[verifier::truncate] ((v & 0xFFFF) as u16);
                self.events = Ghost(self.events@.push((FpgaEvent::Read16 { addr, value: b })));
                Ok(b)
            }
            ScriptedReply::Fault => Err(FpgaFault),
        }
    }

    fn read_u32(&mut self, addr: u16) -> (r: Result<u32, FpgaFault>) {
        self.read_log.push(addr);
        match self.take_reply() {
            ScriptedReply::Value(v) => {
                self.events = Ghost(self.events@.push((FpgaEvent::Read32 { addr, value: v })));
                Ok(v)
            }
            ScriptedReply::Fault => Err(FpgaFault),
        }
    }

    fn read_bytes(&mut self, addr: u16, len: usize) -> (r: Result<Vec<u8>, FpgaFault>) {
        self.read_log.push(addr);
        match self.take_reply() {
            ScriptedReply::Value(v) => {
                let b = #[verifier::truncate] ((v & 0xFF) as u8);
                let mut data: Vec<u8> = Vec::new();
                let mut k: usize = 0;
                while k < len
                    invariant
                        data@.len() == k,
                        k <= len,
                    decreases len - k,
                {
                    data.push(b);
                    k = k + 1;
                }
                self.events = Ghost(
                    self.events@.push((FpgaEvent::ReadBytes { addr, data: data@ })),
                );
                Ok(data)
            }
            ScriptedReply::Fault => Err(FpgaFault),
        }
    }

    fn write_u8(&mut self, addr: u16, value: u8) -> (r: Result<(), FpgaFault>) {
        self.write8_log.push((addr, value));
        if self.writes_fail {
            Err(FpgaFault)
        } else {
            self.events = Ghost(self.events@.push((FpgaEvent::Write8 { addr, value })));
            Ok(())
        }
    }

    fn write_bytes(&mut self, addr: u16, data: &Vec<u8>) -> (r: Result<(), FpgaFault>) {
        let mut copy: Vec<u8> = Vec::new();
        let mut k: usize = 0;
        while k < data.len()
            invariant
                k <= data@.len(),
            decreases data@.len() - k,
        {
            copy.push(data[k]);
            k = k + 1;
        }
        self.write_bytes_log.push((addr, copy));
        if self.writes_fail {
            Err(FpgaFault)
        } else {
            self.events = Ghost(self.events@.push((FpgaEvent::WriteBytes { addr, data: data@ })));
            Ok(())
        }
    }

    fn sleep(&mut self, ticks: u32) {
        self.sleep_log.push(ticks);
    }
}

/// A framed serial bus that answers from a script.  A scripted value fills
/// the last four bytes of an 8-byte exchange reply, big-endian, the way the
/// switch returns register data; replies of other lengths are all zeroes.
pub struct ScriptedSpiBus {
    replies: Vec<ScriptedReply>,
    next: usize,
    fallback: u32,
    writes_fail: bool,
    /// Frames sent by all exchanges attempted, in order, faulted ones
    /// included.
    pub exchange_log: Vec<Vec<u8>>,
    /// Frames sent by all writes attempted, in order.
    pub write_log: Vec<Vec<u8>>,
    events: Ghost<Seq<SpiEvent>>,
}

impl ScriptedSpiBus {
    /// A bus whose exchanges answer from `replies` in order, then with
    /// `fallback` forever; write frames fault iff `writes_fail`.
    pub fn new(replies: Vec<ScriptedReply>, fallback: u32, writes_fail: bool) -> (b: Self)
        ensures
            b.hist() == Seq::<SpiEvent>::empty(),
    {
        ScriptedSpiBus {
            replies,
            next: 0,
            fallback,
            writes_fail,
            exchange_log: Vec::new(),
            write_log: Vec::new(),
            events: Ghost(Seq::empty()),
        }
    }

    /// The next scripted answer, consuming one script entry.
    fn take_reply(&mut self) -> (r: ScriptedReply)
        ensures
            final(self).events == old(self).events,
    {
        if self.next < self.replies.len() {
            let r = self.replies[self.next];
            self.next = self.next + 1;
            r
        } else {
            ScriptedReply::Value(self.fallback)
        }
    }
}

/// Copy a byte vector; the scripted buses keep logs by value.
fn copy_bytes(data: &Vec<u8>) -> (c: Vec<u8>)
    ensures
        c@ == data@,
{
    let mut copy: Vec<u8> = Vec::new();
    let mut k: usize = 0;
    while k < data.len()
        invariant
            k <= data@.len(),
            copy@ == data@.take(k as int),
        decreases data@.len() - k,
    {
        copy.push(data[k]);
        k = k + 1;
        proof {
            assert(copy@ =~= data@.take(k as int));
        }
    }
    proof {
        assert(copy@ =~= data@);
    }
    copy
}

impl SpiBus for ScriptedSpiBus {
    closed spec fn hist(&self) -> Seq<SpiEvent> {
        self.events@
    }

    fn exchange(&mut self, tx: &Vec<u8>, rx_len: usize) -> (r: Result<Vec<u8>, SpiFault>) {
        let logged = copy_bytes(tx);
        self.exchange_log.push(logged);
        match self.take_reply() {
            ScriptedReply::Value(v) => {
                let mut rx: Vec<u8> = Vec::new();
                if rx_len == 8 {
                    rx.push(0);
                    rx.push(0);
                    rx.push(0);
                    rx.push(0);
                    rx.push(#[verifier::truncate] (((v >> 24) & 0xFF) as u8));
                    rx.push(#[verifier::truncate] (((v >> 16) & 0xFF) as u8));
                    rx.push(#[verifier::truncate] (((v >> 8) & 0xFF) as u8));
                    rx.push(#[verifier::truncate] ((v & 0xFF) as u8));
                } else {
                    let mut k: usize = 0;
                    while k < rx_len
                        invariant
                            rx@.len() == k,
                            k <= rx_len,
                        decreases rx_len - k,
                    {
                        rx.push(0);
                        k = k + 1;
                    }
                }
                self.events = Ghost(self.events@.push((SpiEvent::Exchange { tx: tx@, rx: rx@ })));
                Ok(rx)
            }
            ScriptedReply::Fault => Err(SpiFault),
        }
    }

    fn write(&mut self, tx: &Vec<u8>) -> (r: Result<(), SpiFault>) {
        let logged = copy_bytes(tx);
        self.write_log.push(logged);
        if self.writes_fail {
            Err(SpiFault)
        } else {
            self.events = Ghost(self.events@.push((SpiEvent::Write { tx: tx@ })));
            Ok(())
        }
    }
}

} // verus!
