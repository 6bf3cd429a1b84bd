//! The ignition link protocol.
//!
//! Each ignition target is a remote power/link-control endpoint addressed by
//! a small integer id inside a shared register window: the window starts at a
//! base address and each target owns a 256-byte block.  The registers of a
//! block hold the link status, the target state, the caller's request, the
//! remote side's response, and per-link counters.  Commands are asynchronous:
//! a request written to the request register takes effect only once the
//! remote side has processed it and published a response, so [`ping`] and
//! [`set_power_state`] are bounded-retry polling exchanges.
//!
//! [`ping`]: IgnitionController::ping
//! [`set_power_state`]: IgnitionController::set_power_state

use vstd::prelude::*;

use crate::transport::{FpgaBus, FpgaEvent, FpgaFault};

verus! {

// Register offsets inside a target's 256-byte block.

/// Target presence/validity/status register (4 bytes, 24 meaningful bits).
pub const TARGET_OFFSET: u16 = 0x0;

/// Link status flags (1 byte).
pub const LINK_STATUS_OFFSET: u16 = 0x4;

/// Request register written by the caller (1 byte).
pub const REQUEST_OFFSET: u16 = 0x8;

/// Response register published by the remote side (1 byte).
pub const RESPONSE_OFFSET: u16 = 0x9;

/// Per-link counters (4 bytes).
pub const COUNTERS_OFFSET: u16 = 0x10;

/// Attempts made to observe a valid response before giving up.
pub const RETRY_LIMIT: u32 = 3;

/// Ticks slept after each response poll, bounding the poll rate.  The delay
/// is fixed policy: total command latency is at most `RETRY_LIMIT` polls of
/// `POLL_DELAY_TICKS` each, on top of the bus round-trips themselves.
pub const POLL_DELAY_TICKS: u32 = 5;

/// Errors reported by the ignition protocol layer.
#[derive(Clone, Copy, Debug, PartialEq, Eq, Structural)]
pub enum IgnitionError {
    /// The server hosting the controller went away (reported by embedders;
    /// never produced by this layer itself).
    ServerDied,
    /// The register window transport failed; never retried by this layer.
    FpgaError,
    /// The remote side rejected the command.
    Nack,
    /// A valid but unrecognised response: protocol desync or unexpected
    /// remote state.
    InvalidValue,
    /// No valid response was observed within the retry budget.
    Timeout,
}

impl From<FpgaFault> for IgnitionError {
    fn from(_fault: FpgaFault) -> (r: Self) {
        IgnitionError::FpgaError
    }
}

impl vstd::std_specs::convert::FromSpecImpl<FpgaFault> for IgnitionError {
    open spec fn obeys_from_spec() -> bool {
        true
    }

    open spec fn from_spec(fault: FpgaFault) -> Self {
        IgnitionError::FpgaError
    }
}

/// Link status flags, decoded from a single one-byte register.
#[derive(Clone, Copy, Debug, PartialEq, Eq, Structural)]
pub struct LinkStatus(pub u8);

impl LinkStatus {
    /// Bit 0: a target is detected on the link.
    pub open spec fn spec_link_detected(self) -> bool {
        self.0 & 0x01 == 0x01
    }

    /// Bit 1: the target state register holds valid data.
    pub open spec fn spec_target_state_valid(self) -> bool {
        self.0 & 0x02 == 0x02
    }

    pub fn link_detected(&self) -> (r: bool)
        ensures
            r == self.spec_link_detected(),
    {
        self.0 & 0x01 == 0x01
    }

    pub fn target_state_valid(&self) -> (r: bool)
        ensures
            r == self.spec_target_state_valid(),
    {
        self.0 & 0x02 == 0x02
    }
}

/// The opaque system-type byte a target reports for the system behind it.
#[derive(Clone, Copy, Debug, PartialEq, Eq, Structural)]
pub struct SystemType(pub u8);

/// Target status flags, valid only while [`Target::valid`] holds.
#[derive(Clone, Copy, Debug, PartialEq, Eq, Structural)]
pub struct Status(pub u8);

impl Status {
    /// Bit 0: an ignition controller is detected on the target system.
    pub open spec fn spec_controller_detected(self) -> bool {
        self.0 & 0x01 == 0x01
    }

    /// Bit 1: system power is enabled.
    pub open spec fn spec_system_power_enabled(self) -> bool {
        self.0 & 0x02 == 0x02
    }

    /// Bit 2: a fault on the A3 power rail.
    pub open spec fn spec_power_fault_a3(self) -> bool {
        self.0 & 0x04 == 0x04
    }

    /// Bit 3: a fault on the A2 power rail.
    pub open spec fn spec_power_fault_a2(self) -> bool {
        self.0 & 0x08 == 0x08
    }

    /// Bit 4: a root-of-trust fault.
    pub open spec fn spec_rot_fault(self) -> bool {
        self.0 & 0x10 == 0x10
    }

    /// Bit 5: a service-processor fault.
    pub open spec fn spec_sp_fault(self) -> bool {
        self.0 & 0x20 == 0x20
    }

    pub fn controller_detected(&self) -> (r: bool)
        ensures
            r == self.spec_controller_detected(),
    {
        self.0 & 0x01 == 0x01
    }

    pub fn system_power_enabled(&self) -> (r: bool)
        ensures
            r == self.spec_system_power_enabled(),
    {
        self.0 & 0x02 == 0x02
    }

    pub fn power_fault_a3(&self) -> (r: bool)
        ensures
            r == self.spec_power_fault_a3(),
    {
        self.0 & 0x04 == 0x04
    }

    pub fn power_fault_a2(&self) -> (r: bool)
        ensures
            r == self.spec_power_fault_a2(),
    {
        self.0 & 0x08 == 0x08
    }

    pub fn rot_fault(&self) -> (r: bool)
        ensures
            r == self.spec_rot_fault(),
    {
        self.0 & 0x10 == 0x10
    }

    pub fn sp_fault(&self) -> (r: bool)
        ensures
            r == self.spec_sp_fault(),
    {
        self.0 & 0x20 == 0x20
    }
}

/// Power state of the system behind a target, derived from its status.
#[derive(Clone, Copy, Debug, PartialEq, Eq, Structural)]
pub enum PowerState {
    Off,
    On,
}

/// The target state register: 24 meaningful bits.  The low byte carries the
/// presence flags, byte 1 the system type, byte 2 the status flags; the
/// latter two are meaningful only while bit 1 (`valid`) is set.  The value
/// is recomputed fresh on every read and never cached: the remote device is
/// the sole source of truth.
#[derive(Clone, Copy, Debug, PartialEq, Eq, Structural)]
pub struct Target(pub u32);

impl Target {
    /// Bit 0: a target is present on the link.
    pub open spec fn spec_present(self) -> bool {
        self.0 & 0x01 == 0x01
    }

    /// Bit 1: the rest of this register holds valid data.
    pub open spec fn spec_valid(self) -> bool {
        self.0 & 0x02 == 0x02
    }

    /// Byte 1: the reported system type.
    pub open spec fn spec_system_type_byte(self) -> u8 {
        (self.0 >> 8) as u8
    }

    /// Byte 2: the reported status flags.
    pub open spec fn spec_status_byte(self) -> u8 {
        (self.0 >> 16) as u8
    }

    pub fn present(&self) -> (r: bool)
        ensures
            r == self.spec_present(),
    {
        self.0 & 0x01 == 0x01
    }

    pub fn valid(&self) -> (r: bool)
        ensures
            r == self.spec_valid(),
    {
        self.0 & 0x02 == 0x02
    }

    /// The system type behind this target, if the register data is valid.
    pub fn system_type(&self) -> (r: Option<SystemType>)
        ensures
            r == (if self.spec_valid() {
                Some(SystemType(self.spec_system_type_byte()))
            } else {
                None::<SystemType>
            }),
    {
        if self.valid() {
            Some(SystemType(#[verifier::truncate] ((self.0 >> 8) as u8)))
        } else {
            None
        }
    }

    /// The status flags of this target, if the register data is valid.
    pub fn status(&self) -> (r: Option<Status>)
        ensures
            r == (if self.spec_valid() {
                Some(Status(self.spec_status_byte()))
            } else {
                None::<Status>
            }),
    {
        if self.valid() {
            Some(Status(#[verifier::truncate] ((self.0 >> 16) as u8)))
        } else {
            None
        }
    }

    /// The power state of the system behind this target: absent while the
    /// register data is not valid, and `On` exactly when the decoded status
    /// reports system power enabled.
    pub fn power_state(&self) -> (r: Option<PowerState>)
        ensures
            r == (if !self.spec_valid() {
                None::<PowerState>
            } else if Status(self.spec_status_byte()).spec_system_power_enabled() {
                Some(PowerState::On)
            } else {
                Some(PowerState::Off)
            }),
    {
        match self.status() {
            None => None,
            Some(s) => if s.system_power_enabled() {
                Some(PowerState::On)
            } else {
                Some(PowerState::Off)
            },
        }
    }
}

/// The command field of a request.
#[derive(Clone, Copy, Debug, PartialEq, Eq, Structural)]
pub enum RequestKind {
    /// No command: written by a bare liveness check.
    NoCommand,
    /// Enable system power.
    PowerOn,
    /// Disable system power.
    PowerOff,
}

/// Encoding of a request's command field (2 bits).
pub open spec fn spec_request_kind_bits(kind: RequestKind) -> u8 {
    match kind {
        RequestKind::NoCommand => 0,
        RequestKind::PowerOn => 1,
        RequestKind::PowerOff => 2,
    }
}

/// The request register: a 2-bit command kind plus a read-only `pending`
/// flag (bit 2) that the remote side raises while a command awaits
/// processing.
#[derive(Clone, Copy, Debug, PartialEq, Eq, Structural)]
pub struct Request(pub u8);

impl Request {
    /// A request carrying the given command and a clear `pending` flag.
    pub fn of_kind(kind: RequestKind) -> (r: Request)
        ensures
            r.0 == spec_request_kind_bits(kind),
    {
        match kind {
            RequestKind::NoCommand => Request(0),
            RequestKind::PowerOn => Request(1),
            RequestKind::PowerOff => Request(2),
        }
    }

    /// The request that commands the given power state.
    pub fn for_power_state(state: PowerState) -> (r: Request)
        ensures
            r.0 == spec_request_kind_bits(spec_kind_for_power_state(state)),
    {
        match state {
            PowerState::On => Request::of_kind(RequestKind::PowerOn),
            PowerState::Off => Request::of_kind(RequestKind::PowerOff),
        }
    }

    /// Bits 0-1: the command kind, if recognised.
    pub open spec fn spec_kind(self) -> Option<RequestKind> {
        if self.0 & 0x03 == 0 {
            Some(RequestKind::NoCommand)
        } else if self.0 & 0x03 == 1 {
            Some(RequestKind::PowerOn)
        } else if self.0 & 0x03 == 2 {
            Some(RequestKind::PowerOff)
        } else {
            None
        }
    }

    /// Bit 2: the remote side has not yet processed the request.
    pub open spec fn spec_pending(self) -> bool {
        self.0 & 0x04 == 0x04
    }

    pub fn kind(&self) -> (r: Option<RequestKind>)
        ensures
            r == self.spec_kind(),
    {
        if self.0 & 0x03 == 0 {
            Some(RequestKind::NoCommand)
        } else if self.0 & 0x03 == 1 {
            Some(RequestKind::PowerOn)
        } else if self.0 & 0x03 == 2 {
            Some(RequestKind::PowerOff)
        } else {
            None
        }
    }

    pub fn pending(&self) -> (r: bool)
        ensures
            r == self.spec_pending(),
    {
        self.0 & 0x04 == 0x04
    }
}

/// The command kind a power-state change maps to.
pub open spec fn spec_kind_for_power_state(state: PowerState) -> RequestKind {
    match state {
        PowerState::On => RequestKind::PowerOn,
        PowerState::Off => RequestKind::PowerOff,
    }
}

/// The response register: a 3-bit kind plus a `valid` flag (bit 3).  Only
/// valid responses are meaningful; the remote side raises `valid` once it
/// has finished processing the most recent command.
#[derive(Clone, Copy, Debug, PartialEq, Eq, Structural)]
pub struct Response(pub u8);

/// The response byte acknowledging a command: valid, kind 0.
pub const RESPONSE_ACK: u8 = 0x08;

/// The response byte rejecting a command: valid, kind 1.
pub const RESPONSE_NACK: u8 = 0x09;

/// Bit 3 of a response byte: the remote side finished processing.
pub open spec fn spec_response_valid(v: u8) -> bool {
    v & 0x08 == 0x08
}

/// Bits 0-2 of a response byte: the response kind.
pub open spec fn spec_response_kind(v: u8) -> u8 {
    v & 0x07
}

impl Response {
    pub open spec fn spec_valid(self) -> bool {
        spec_response_valid(self.0)
    }

    pub fn valid(&self) -> (r: bool)
        ensures
            r == self.spec_valid(),
    {
        self.0 & 0x08 == 0x08
    }

    pub fn kind(&self) -> (r: u8)
        ensures
            r == spec_response_kind(self.0),
    {
        self.0 & 0x07
    }
}

/// Outcome classification of a valid response byte: acknowledgment means
/// success, the explicit negative acknowledgment is reported as [`Nack`],
/// and any other valid response is a protocol desync.
///
/// [`Nack`]: IgnitionError::Nack
pub open spec fn spec_classify_response(v: u8) -> Result<(), IgnitionError> {
    if v == RESPONSE_ACK {
        Ok(())
    } else if v == RESPONSE_NACK {
        Err(IgnitionError::Nack)
    } else {
        Err(IgnitionError::InvalidValue)
    }
}

/// Exec twin of [`spec_classify_response`], for a response already observed
/// to be valid.
pub fn classify_response(v: u8) -> (r: Result<(), IgnitionError>)
    ensures
        r == spec_classify_response(v),
{
    if v == RESPONSE_ACK {
        Ok(())
    } else if v == RESPONSE_NACK {
        Err(IgnitionError::Nack)
    } else {
        Err(IgnitionError::InvalidValue)
    }
}

/// Per-link counters, reset only by a remote power cycle.
#[derive(Clone, Copy, Debug, PartialEq, Eq, Structural)]
pub struct Counters {
    /// Times the transmitter lost the link.
    pub transmitter_lost: u8,
    /// Packets received on the link.
    pub packets_received: u8,
    /// Packets dropped on the link.
    pub packets_dropped: u8,
}

/// Decoding of the counters register: one counter per byte, low byte first.
pub open spec fn spec_counters_of_word(v: u32) -> Counters {
    Counters {
        transmitter_lost: (v & 0xFF) as u8,
        packets_received: ((v >> 8) & 0xFF) as u8,
        packets_dropped: ((v >> 16) & 0xFF) as u8,
    }
}

/// Addresses fit: every register of target `id`'s block lies inside `u16`
/// when laid out from `base`.  The protocol does not range-check ids itself;
/// this is the machine limit on the address computation.
pub open spec fn target_addressable(base: u16, id: u8) -> bool {
    base + 256 * (id as int) + COUNTERS_OFFSET <= u16::MAX
}

/// The absolute address of target `id`'s register at `offset`.
pub open spec fn spec_target_addr(base: u16, id: u8, offset: u16) -> u16 {
    (base + 256 * (id as int) + offset) as u16
}

/// The event is a poll of the response register.
pub open spec fn poll_read(e: FpgaEvent, resp_addr: u16) -> bool {
    e matches FpgaEvent::Read8 { addr, value } && addr == resp_addr
}

/// The response byte a poll event returned.
pub open spec fn poll_value(e: FpgaEvent) -> u8
    recommends
        e is Read8,
{
    e->Read8_value
}

/// The response bytes returned by the poll events of `h` from index `from`.
pub open spec fn poll_values(h: Seq<FpgaEvent>, from: int) -> Seq<u8>
    recommends
        0 <= from <= h.len(),
{
    Seq::new((h.len() - from) as nat, |k: int| poll_value(h[from + k]))
}

/// How a sequence of polled response bytes determines the outcome of a
/// command/response exchange:
///
/// - polling stops at the first valid response, so at most the last polled
///   byte may be valid;
/// - a valid terminal response is classified by [`spec_classify_response`];
/// - if the retry budget is exhausted without a valid response, the exchange
///   times out after exactly [`RETRY_LIMIT`] polls;
/// - a transport fault aborts the exchange before the budget is spent, with
///   every completed poll having been invalid.
pub open spec fn poll_verdict(vals: Seq<u8>, r: Result<(), IgnitionError>) -> bool {
    &&& vals.len() <= RETRY_LIMIT
    &&& (forall |i: int| 0 <= i < vals.len() - 1 ==> !spec_response_valid(#[trigger] vals[i]))
    &&& if r == Err::<(), IgnitionError>(IgnitionError::Timeout) {
        vals.len() == RETRY_LIMIT && !spec_response_valid(vals.last())
    } else if r == Err::<(), IgnitionError>(IgnitionError::FpgaError) {
        vals.len() < RETRY_LIMIT && (vals.len() == 0 || !spec_response_valid(vals.last()))
    } else {
        vals.len() >= 1 && spec_response_valid(vals.last()) && r == spec_classify_response(
            vals.last(),
        )
    }
}

/// The history shape of one command/response exchange: either the request
/// write itself faulted and left no trace, or the request byte was written
/// to the request register and the response register was then polled, the
/// polled bytes deciding the outcome as [`poll_verdict`] says.
pub open spec fn command_exchange(
    h0: Seq<FpgaEvent>,
    h1: Seq<FpgaEvent>,
    req_addr: u16,
    resp_addr: u16,
    request: u8,
    r: Result<(), IgnitionError>,
) -> bool {
    if h1 == h0 {
        r == Err::<(), IgnitionError>(IgnitionError::FpgaError)
    } else {
        let n = h0.len() as int;
        &&& h0.is_prefix_of(h1)
        &&& h1.len() > n
        &&& h1[n] == (FpgaEvent::Write8 { addr: req_addr, value: request })
        &&& (forall |j: int| n + 1 <= j < h1.len() ==> poll_read(#[trigger] h1[j], resp_addr))
        &&& poll_verdict(poll_values(h1, n + 1), r)
    }
}

/// Polling stops at the first valid response: a command acknowledged on the
/// first poll succeeds after exactly one poll, with no retries spent.
pub proof fn lemma_ack_on_first_poll(vals: Seq<u8>, r: Result<(), IgnitionError>)
    requires
        poll_verdict(vals, r),
        vals.len() >= 1,
        vals[0] == RESPONSE_ACK,
    ensures
        r == Ok::<(), IgnitionError>(()),
        vals.len() == 1,
{
    assert(spec_response_valid(RESPONSE_ACK)) by (bit_vector);
    assert(vals.len() == 1);
    assert(vals.last() == vals[0]);
}

/// Polling stops at the first valid response even when that response is
/// unrecognised: the exchange reports a protocol desync after exactly one
/// poll rather than spending the remaining retries.
pub proof fn lemma_unexpected_on_first_poll(vals: Seq<u8>, r: Result<(), IgnitionError>)
    requires
        poll_verdict(vals, r),
        vals.len() >= 1,
        spec_response_valid(vals[0]),
        vals[0] != RESPONSE_ACK,
        vals[0] != RESPONSE_NACK,
    ensures
        r == Err::<(), IgnitionError>(IgnitionError::InvalidValue),
        vals.len() == 1,
{
    assert(vals.len() == 1);
    assert(vals.last() == vals[0]);
}

/// A remote side that never publishes a valid response makes the exchange
/// time out after exactly the retry budget, never more: unless the
/// transport itself faulted, exactly [`RETRY_LIMIT`] polls were made.
pub proof fn lemma_no_valid_response_times_out(vals: Seq<u8>, r: Result<(), IgnitionError>)
    requires
        poll_verdict(vals, r),
        forall |i: int| 0 <= i < vals.len() ==> !spec_response_valid(#[trigger] vals[i]),
        r != Err::<(), IgnitionError>(IgnitionError::FpgaError),
    ensures
        r == Err::<(), IgnitionError>(IgnitionError::Timeout),
        vals.len() == RETRY_LIMIT,
{
}

/// One logical register window of ignition targets, owned together with the
/// transport that reaches it.  All operations are parameterized by a target
/// id; the window is shared mutable hardware state, so an instance must be
/// exclusively owned by one caller at a time.
pub struct IgnitionController<B: FpgaBus> {
    /// The mapped register window transport.
    pub bus: B,
    /// Where the shared register window starts.
    pub address_base: u16,
}

impl<B: FpgaBus> IgnitionController<B> {
    pub fn new(bus: B, address_base: u16) -> (c: Self)
        ensures
            c.bus == bus,
            c.address_base == address_base,
    {
        IgnitionController { bus, address_base }
    }

    /// The absolute address of target `id`'s register at `offset`.
    fn addr(&self, id: u8, offset: u16) -> (addr: u16)
        requires
            offset <= COUNTERS_OFFSET,
            target_addressable(self.address_base, id),
        ensures
            addr == spec_target_addr(self.address_base, id, offset),
    {
        crate::target_register_address(self.address_base, id, offset)
    }

    /// Read target `id`'s state register, masked to its 24 meaningful bits.
    /// The value is read fresh from the remote device, never cached.
    pub fn state(&mut self, id: u8) -> (r: Result<Target, IgnitionError>)
        requires
            target_addressable(old(self).address_base, id),
        ensures
            final(self).address_base == old(self).address_base,
            match r {
                Ok(t) => exists |v: u32|
                    final(self).bus.hist() == #[trigger] old(self).bus.hist().push(
                        (FpgaEvent::Read32 {
                            addr: spec_target_addr(old(self).address_base, id, TARGET_OFFSET),
                            value: v,
                        }),
                    ) && t == Target(v & 0x00FFFFFF),
                Err(IgnitionError::FpgaError) => final(self).bus.hist() == old(self).bus.hist(),
                Err(_) => false,
            },
    {
        let a = self.addr(id, TARGET_OFFSET);
        match self.bus.read_u32(a) {
            Ok(v) => Ok(Target(v & 0x00FFFFFF)),
            Err(_) => Err(IgnitionError::FpgaError),
        }
    }

    /// Read target `id`'s link status register.
    pub fn link_status(&mut self, id: u8) -> (r: Result<LinkStatus, IgnitionError>)
        requires
            target_addressable(old(self).address_base, id),
        ensures
            final(self).address_base == old(self).address_base,
            match r {
                Ok(s) => final(self).bus.hist() == old(self).bus.hist().push(
                    (FpgaEvent::Read8 {
                        addr: spec_target_addr(old(self).address_base, id, LINK_STATUS_OFFSET),
                        value: s.0,
                    }),
                ),
                Err(IgnitionError::FpgaError) => final(self).bus.hist() == old(self).bus.hist(),
                Err(_) => false,
            },
    {
        let a = self.addr(id, LINK_STATUS_OFFSET);
        match self.bus.read_u8(a) {
            Ok(v) => Ok(LinkStatus(v)),
            Err(_) => Err(IgnitionError::FpgaError),
        }
    }

    /// Read back target `id`'s request register, including the remote-set
    /// `pending` flag.
    pub fn request(&mut self, id: u8) -> (r: Result<Request, IgnitionError>)
        requires
            target_addressable(old(self).address_base, id),
        ensures
            final(self).address_base == old(self).address_base,
            match r {
                Ok(q) => final(self).bus.hist() == old(self).bus.hist().push(
                    (FpgaEvent::Read8 {
                        addr: spec_target_addr(old(self).address_base, id, REQUEST_OFFSET),
                        value: q.0,
                    }),
                ),
                Err(IgnitionError::FpgaError) => final(self).bus.hist() == old(self).bus.hist(),
                Err(_) => false,
            },
    {
        let a = self.addr(id, REQUEST_OFFSET);
        match self.bus.read_u8(a) {
            Ok(v) => Ok(Request(v)),
            Err(_) => Err(IgnitionError::FpgaError),
        }
    }

    /// Read target `id`'s response register, for diagnostics.
    pub fn response(&mut self, id: u8) -> (r: Result<Response, IgnitionError>)
        requires
            target_addressable(old(self).address_base, id),
        ensures
            final(self).address_base == old(self).address_base,
            match r {
                Ok(p) => final(self).bus.hist() == old(self).bus.hist().push(
                    (FpgaEvent::Read8 {
                        addr: spec_target_addr(old(self).address_base, id, RESPONSE_OFFSET),
                        value: p.0,
                    }),
                ),
                Err(IgnitionError::FpgaError) => final(self).bus.hist() == old(self).bus.hist(),
                Err(_) => false,
            },
    {
        let a = self.addr(id, RESPONSE_OFFSET);
        match self.bus.read_u8(a) {
            Ok(v) => Ok(Response(v)),
            Err(_) => Err(IgnitionError::FpgaError),
        }
    }

    /// Read target `id`'s per-link counters.
    pub fn counters(&mut self, id: u8) -> (r: Result<Counters, IgnitionError>)
        requires
            target_addressable(old(self).address_base, id),
        ensures
            final(self).address_base == old(self).address_base,
            match r {
                Ok(c) => exists |v: u32|
                    final(self).bus.hist() == #[trigger] old(self).bus.hist().push(
                        (FpgaEvent::Read32 {
                            addr: spec_target_addr(old(self).address_base, id, COUNTERS_OFFSET),
                            value: v,
                        }),
                    ) && c == spec_counters_of_word(v),
                Err(IgnitionError::FpgaError) => final(self).bus.hist() == old(self).bus.hist(),
                Err(_) => false,
            },
    {
        let a = self.addr(id, COUNTERS_OFFSET);
        match self.bus.read_u32(a) {
            Ok(v) => Ok(Counters {
                transmitter_lost: (v & 0xFF) as u8,
                packets_received: ((v >> 8) & 0xFF) as u8,
                packets_dropped: ((v >> 16) & 0xFF) as u8,
            }),
            Err(_) => Err(IgnitionError::FpgaError),
        }
    }

    /// Write target `id`'s request register, with no implicit read-back.
    pub fn set_request(&mut self, id: u8, request: Request) -> (r: Result<(), IgnitionError>)
        requires
            target_addressable(old(self).address_base, id),
        ensures
            final(self).address_base == old(self).address_base,
            match r {
                Ok(()) => final(self).bus.hist() == old(self).bus.hist().push(
                    (FpgaEvent::Write8 {
                        addr: spec_target_addr(old(self).address_base, id, REQUEST_OFFSET),
                        value: request.0,
                    }),
                ),
                Err(IgnitionError::FpgaError) => final(self).bus.hist() == old(self).bus.hist(),
                Err(_) => false,
            },
    {
        let a = self.addr(id, REQUEST_OFFSET);
        match self.bus.write_u8(a, request.0) {
            Ok(()) => Ok(()),
            Err(_) => Err(IgnitionError::FpgaError),
        }
    }

    /// Submit a command to target `id` and poll for its response: write the
    /// request register, then read the response register up to
    /// [`RETRY_LIMIT`] times, stopping at the first valid response and
    /// sleeping [`POLL_DELAY_TICKS`] after each poll.
    fn submit_request(&mut self, id: u8, request: Request) -> (r: Result<(), IgnitionError>)
        requires
            target_addressable(old(self).address_base, id),
        ensures
            final(self).address_base == old(self).address_base,
            command_exchange(
                old(self).bus.hist(),
                final(self).bus.hist(),
                spec_target_addr(old(self).address_base, id, REQUEST_OFFSET),
                spec_target_addr(old(self).address_base, id, RESPONSE_OFFSET),
                request.0,
                r,
            ),
    {
        let req_addr = self.addr(id, REQUEST_OFFSET);
        let resp_addr = self.addr(id, RESPONSE_OFFSET);
        let ghost h0 = self.bus.hist();

        match self.bus.write_u8(req_addr, request.0) {
            Ok(()) => {}
            Err(_) => {
                return Err(IgnitionError::FpgaError);
            }
        }

        let ghost hbase = self.bus.hist();
        proof {
            crate::transport::lemma_push_prefix(
                h0,
                (FpgaEvent::Write8 { addr: req_addr, value: request.0 }),
            );
        }

        let mut i: u32 = 0;
        while i < RETRY_LIMIT
            invariant
                i <= RETRY_LIMIT,
                h0 == old(self).bus.hist(),
                target_addressable(self.address_base, id),
                self.address_base == old(self).address_base,
                req_addr == spec_target_addr(self.address_base, id, REQUEST_OFFSET),
                resp_addr == spec_target_addr(self.address_base, id, RESPONSE_OFFSET),
                hbase == h0.push((FpgaEvent::Write8 { addr: req_addr, value: request.0 })),
                h0.is_prefix_of(hbase),
                hbase.is_prefix_of(self.bus.hist()),
                self.bus.hist().len() == hbase.len() + i,
                forall |j: int| hbase.len() <= j < self.bus.hist().len()
                    ==> poll_read(#[trigger] self.bus.hist()[j], resp_addr),
                forall |j: int| hbase.len() <= j < self.bus.hist().len()
                    ==> !spec_response_valid(poll_value(#[trigger] self.bus.hist()[j])),
            decreases RETRY_LIMIT - i,
        {
            let ghost hpre = self.bus.hist();
            match self.bus.read_u8(resp_addr) {
                Err(_) => {
                    proof {
                        lemma_exchange_shape(h0, hbase, self.bus.hist(), req_addr, resp_addr, request.0);
                    }
                    return Err(IgnitionError::FpgaError);
                }
                Ok(v) => {
                    self.bus.sleep(POLL_DELAY_TICKS);
                    proof {
                        crate::transport::lemma_push_prefix(
                            hpre,
                            (FpgaEvent::Read8 { addr: resp_addr, value: v }),
                        );
                        crate::transport::lemma_prefix_trans(hbase, hpre, self.bus.hist());
                    }
                    if v & 0x08 == 0x08 {
                        let res = classify_response(v);
                        proof {
                            lemma_exchange_shape(h0, hbase, self.bus.hist(), req_addr, resp_addr, request.0);
                            assert(poll_values(self.bus.hist(), h0.len() as int + 1).last() == v);
                        }
                        return res;
                    }
                    i += 1;
                }
            }
        }
        proof {
            lemma_exchange_shape(h0, hbase, self.bus.hist(), req_addr, resp_addr, request.0);
        }
        Err(IgnitionError::Timeout)
    }

    /// Check liveness of target `id`: submit a request carrying no command
    /// and await the remote side's response.
    pub fn ping(&mut self, id: u8) -> (r: Result<(), IgnitionError>)
        requires
            target_addressable(old(self).address_base, id),
        ensures
            final(self).address_base == old(self).address_base,
            command_exchange(
                old(self).bus.hist(),
                final(self).bus.hist(),
                spec_target_addr(old(self).address_base, id, REQUEST_OFFSET),
                spec_target_addr(old(self).address_base, id, RESPONSE_OFFSET),
                spec_request_kind_bits(RequestKind::NoCommand),
                r,
            ),
    {
        self.submit_request(id, Request::of_kind(RequestKind::NoCommand))
    }

    /// Command target `id` into the given power state and await the remote
    /// side's response.
    pub fn set_power_state(&mut self, id: u8, state: PowerState) -> (r: Result<(), IgnitionError>)
        requires
            target_addressable(old(self).address_base, id),
        ensures
            final(self).address_base == old(self).address_base,
            command_exchange(
                old(self).bus.hist(),
                final(self).bus.hist(),
                spec_target_addr(old(self).address_base, id, REQUEST_OFFSET),
                spec_target_addr(old(self).address_base, id, RESPONSE_OFFSET),
                spec_request_kind_bits(spec_kind_for_power_state(state)),
                r,
            ),
    {
        self.submit_request(id, Request::for_power_state(state))
    }
}

/// Helper for [`IgnitionController::submit_request`]: the history invariants
/// maintained by its polling loop establish [`command_exchange`]'s shape
/// clauses (prefix, request write, polls at the response register).
proof fn lemma_exchange_shape(
    h0: Seq<FpgaEvent>,
    hbase: Seq<FpgaEvent>,
    h1: Seq<FpgaEvent>,
    req_addr: u16,
    resp_addr: u16,
    request: u8,
)
    requires
        hbase == h0.push((FpgaEvent::Write8 { addr: req_addr, value: request })),
        hbase.is_prefix_of(h1),
        forall |j: int| hbase.len() <= j < h1.len()
            ==> poll_read(#[trigger] h1[j], resp_addr),
    ensures
        h1 != h0,
        h0.is_prefix_of(h1),
        h1.len() > h0.len(),
        h1[h0.len() as int] == (FpgaEvent::Write8 { addr: req_addr, value: request }),
        forall |j: int| h0.len() + 1 <= j < h1.len()
            ==> poll_read(#[trigger] h1[j], resp_addr),
        poll_values(h1, h0.len() as int + 1) =~= poll_values(h1, hbase.len() as int),
{
    crate::transport::lemma_push_prefix(h0, (FpgaEvent::Write8 { addr: req_addr, value: request }));
    crate::transport::lemma_prefix_trans(h0, hbase, h1);
    crate::transport::lemma_prefix_index(hbase, h1, h0.len() as int);
    assert(h1.len() > h0.len());
    assert(h1 != h0);
}

} // verus!
