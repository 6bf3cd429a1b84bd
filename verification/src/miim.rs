//! The paged PHY (MIIM) protocol, built on the register bus bridge.
//!
//! Each MIIM controller instance of the switch drives one or more PHY chips
//! through a command/status/data register triad.  A PHY register address is
//! only meaningful relative to the PHY's currently selected page, so every
//! externally visible access re-selects its page first: one page-select
//! sub-transaction plus the access itself, every time.  Page state is never
//! assumed to survive between calls — a correctness-over-performance choice
//! that avoids stale-page bugs at the cost of one extra bus round-trip.
//!
//! The page-select register is itself a PHY register, so selecting a page
//! through the paging path would recurse.  The raw, non-paging operations
//! ([`Vsc7448Spi::phy_write_inner`] and its read twin) break that cycle:
//! the paging wrappers call the raw path twice, page select then target
//! register.
//!
//! Every access is gated on the controller being idle (its "operation
//! pending" flag clear), and a read additionally waits for the "busy" flag
//! to clear before fetching the data register; both waits poll the status
//! register a bounded number of times ([`MIIM_POLL_LIMIT`]) and then fail
//! with their own timeout error.

use vstd::prelude::*;

use crate::bridge::{
    addr_in_window, read_frame, reads_register, write_frame, RegisterAddress, Vsc7448Spi, VscError,
    SENTINEL_WORD,
};
use crate::transport::{SpiBus, SpiEvent};

verus! {

/// Address of MIIM controller 0's status register.
pub const MIIM_BASE: u32 = 0x7101009C;

/// Distance between the register blocks of adjacent MIIM controllers.
pub const MIIM_STRIDE: u32 = 0x24;

/// Offset of the command register inside a controller's block.
pub const MII_CMD_OFFSET: u32 = 0x8;

/// Offset of the data register inside a controller's block.
pub const MII_DATA_OFFSET: u32 = 0xC;

/// Status polls made before an idle or read wait gives up.
pub const MIIM_POLL_LIMIT: u32 = 32;

/// Status register flag: an operation is still pending.
pub const MII_STATUS_OPR_PEND: u32 = 0x4;

/// Status register flag: a read is in flight and data is not ready.
pub const MII_STATUS_BUSY: u32 = 0x8;

/// Command register operation code for a read (field value `0b10`).
pub const MII_CMD_OPR_READ: u32 = 0b10;

/// Command register operation code for a write (field value `0b01`).
pub const MII_CMD_OPR_WRITE: u32 = 0b01;

/// The page-select register: register 31 of every PHY page.
pub const PHY_PAGE_REG: u8 = 31;

/// A PHY register address, relative to a PHY page.  No access to `addr` is
/// valid without first establishing `page` on the target PHY; the protocol
/// does that on every call.
#[derive(Clone, Copy, Debug, PartialEq, Eq, Structural)]
pub struct PhyRegisterAddress {
    pub page: u16,
    pub addr: u8,
}

impl PhyRegisterAddress {
    pub fn new(page: u16, addr: u8) -> (r: Self)
        ensures
            r.page == page,
            r.addr == addr,
    {
        PhyRegisterAddress { page, addr }
    }
}

/// Address of controller `miim`'s status register.
pub open spec fn mii_status_addr(miim: u8) -> u32 {
    (MIIM_BASE + (miim as int) * MIIM_STRIDE) as u32
}

/// Address of controller `miim`'s command register.
pub open spec fn mii_cmd_addr(miim: u8) -> u32 {
    (MIIM_BASE + (miim as int) * MIIM_STRIDE + MII_CMD_OFFSET) as u32
}

/// Address of controller `miim`'s data register.
pub open spec fn mii_data_addr(miim: u8) -> u32 {
    (MIIM_BASE + (miim as int) * MIIM_STRIDE + MII_DATA_OFFSET) as u32
}

/// The command register base value: valid flag (bit 31), PHY address
/// (bits 29:25) and register address (bits 24:20); the operation code and
/// write data fields are left clear.
pub open spec fn mii_cmd_base(phy: u8, reg_addr: u8) -> u32 {
    (1u32 << 31) | (((phy & 0x1F) as u32) << 25) | (((reg_addr & 0x1F) as u32) << 20)
}

/// The complete command word issuing a read of `reg_addr` on PHY `phy`.
pub open spec fn mii_read_cmd(phy: u8, reg_addr: u8) -> u32 {
    mii_cmd_base(phy, reg_addr) | (MII_CMD_OPR_READ << 1)
}

/// The complete command word writing `value` to `reg_addr` on PHY `phy`:
/// the write data occupies bits 19:4.
pub open spec fn mii_write_cmd(phy: u8, reg_addr: u8, value: u16) -> u32 {
    mii_cmd_base(phy, reg_addr) | ((value as u32) << 4) | (MII_CMD_OPR_WRITE << 1)
}

/// The controller still has an operation pending.
pub open spec fn stat_opr_pending(v: u32) -> bool {
    v & MII_STATUS_OPR_PEND != 0
}

/// The controller is busy with an in-flight read.
pub open spec fn stat_busy(v: u32) -> bool {
    v & MII_STATUS_BUSY != 0
}

/// The 2-bit success field of a data register value; `0b11` means the PHY
/// reported an error for the read.
pub open spec fn mii_data_success(v: u32) -> u32 {
    (v >> 16) & 0x3
}

/// The PHY register value carried in a data register value.
pub open spec fn mii_data_value(v: u32) -> u16 {
    (v & 0xFFFF) as u16
}

/// The event is a read exchange of register `addr`.
pub open spec fn is_reg_read_of(e: SpiEvent, addr: u32) -> bool {
    e matches SpiEvent::Exchange { tx, rx } && tx == read_frame(addr) && rx.len() == 8
}

/// The register value an exchange event returned.
pub open spec fn exchange_word(e: SpiEvent) -> u32
    recommends
        e is Exchange,
{
    crate::bridge::reply_word(e->Exchange_rx)
}

/// The event is a status poll of controller `miim`.
pub open spec fn status_poll(e: SpiEvent, miim: u8) -> bool {
    is_reg_read_of(e, mii_status_addr(miim))
}

/// Indices `[a, b)` of `h` are status polls of controller `miim` that all
/// reported an operation pending.
pub open spec fn pending_polls(h: Seq<SpiEvent>, a: int, b: int, miim: u8) -> bool {
    forall |i: int| a <= i < b ==> status_poll(#[trigger] h[i], miim) && stat_opr_pending(
        exchange_word(h[i]),
    )
}

/// Indices `[a, b)` of `h` are status polls of controller `miim` that all
/// reported the controller busy.
pub open spec fn busy_polls(h: Seq<SpiEvent>, a: int, b: int, miim: u8) -> bool {
    forall |i: int| a <= i < b ==> status_poll(#[trigger] h[i], miim) && stat_busy(
        exchange_word(h[i]),
    )
}

/// On error, nothing but status polls of controller `miim` was appended to
/// the history.
pub open spec fn only_status_polls(h0: Seq<SpiEvent>, h1: Seq<SpiEvent>, miim: u8) -> bool {
    &&& h0.is_prefix_of(h1)
    &&& forall |i: int| h0.len() <= i < h1.len() ==> status_poll(#[trigger] h1[i], miim)
}

/// What [`Vsc7448Spi::miim_idle_wait`] guarantees: the history grows only by
/// status polls of `miim`, every poll but a terminal one reported an
/// operation pending (the wait stops at the first idle poll), and the result
/// classifies the terminal poll — success on an idle report, the dedicated
/// timeout after exactly [`MIIM_POLL_LIMIT`] pending polls, and transport
/// errors passed through.
pub open spec fn miim_idle_wait_post(
    h0: Seq<SpiEvent>,
    h1: Seq<SpiEvent>,
    miim: u8,
    r: Result<(), VscError>,
) -> bool {
    let n = h0.len() as int;
    &&& h0.is_prefix_of(h1)
    &&& match r {
        Ok(()) => {
            &&& n + 1 <= h1.len() <= n + MIIM_POLL_LIMIT
            &&& pending_polls(h1, n, h1.len() - 1, miim)
            &&& status_poll(h1.last(), miim)
            &&& !stat_opr_pending(exchange_word(h1.last()))
            &&& exchange_word(h1.last()) != SENTINEL_WORD
        },
        Err(VscError::MiimIdleTimeout) => {
            &&& h1.len() == n + MIIM_POLL_LIMIT
            &&& pending_polls(h1, n, h1.len() as int, miim)
        },
        Err(VscError::SpiFault) => {
            &&& h1.len() < n + MIIM_POLL_LIMIT
            &&& pending_polls(h1, n, h1.len() as int, miim)
        },
        Err(VscError::SuspiciousRead) => {
            &&& n + 1 <= h1.len() <= n + MIIM_POLL_LIMIT
            &&& pending_polls(h1, n, h1.len() - 1, miim)
            &&& status_poll(h1.last(), miim)
            &&& exchange_word(h1.last()) == SENTINEL_WORD
        },
        Err(_) => false,
    }
}

/// What [`Vsc7448Spi::miim_read_wait`] guarantees; as
/// [`miim_idle_wait_post`], but over the busy flag and with
/// [`VscError::MiimReadTimeout`] as the timeout.
pub open spec fn miim_read_wait_post(
    h0: Seq<SpiEvent>,
    h1: Seq<SpiEvent>,
    miim: u8,
    r: Result<(), VscError>,
) -> bool {
    let n = h0.len() as int;
    &&& h0.is_prefix_of(h1)
    &&& match r {
        Ok(()) => {
            &&& n + 1 <= h1.len() <= n + MIIM_POLL_LIMIT
            &&& busy_polls(h1, n, h1.len() - 1, miim)
            &&& status_poll(h1.last(), miim)
            &&& !stat_busy(exchange_word(h1.last()))
            &&& exchange_word(h1.last()) != SENTINEL_WORD
        },
        Err(VscError::MiimReadTimeout) => {
            &&& h1.len() == n + MIIM_POLL_LIMIT
            &&& busy_polls(h1, n, h1.len() as int, miim)
        },
        Err(VscError::SpiFault) => {
            &&& h1.len() < n + MIIM_POLL_LIMIT
            &&& busy_polls(h1, n, h1.len() as int, miim)
        },
        Err(VscError::SuspiciousRead) => {
            &&& n + 1 <= h1.len() <= n + MIIM_POLL_LIMIT
            &&& busy_polls(h1, n, h1.len() - 1, miim)
            &&& status_poll(h1.last(), miim)
            &&& exchange_word(h1.last()) == SENTINEL_WORD
        },
        Err(_) => false,
    }
}

/// The history shape of one complete raw MIIM register write: an idle wait
/// that ended on an idle report, then the one command write carrying the
/// value.
pub open spec fn miim_write_txn(
    h0: Seq<SpiEvent>,
    h1: Seq<SpiEvent>,
    miim: u8,
    phy: u8,
    reg_addr: u8,
    value: u16,
) -> bool {
    let n = h0.len() as int;
    &&& h0.is_prefix_of(h1)
    &&& n + 2 <= h1.len() <= n + MIIM_POLL_LIMIT + 1
    &&& pending_polls(h1, n, h1.len() - 2, miim)
    &&& status_poll(h1[h1.len() - 2], miim)
    &&& !stat_opr_pending(exchange_word(h1[h1.len() - 2]))
    &&& h1.last() == (SpiEvent::Write {
        tx: write_frame(mii_cmd_addr(miim), mii_write_cmd(phy, reg_addr, value)),
    })
}

/// The one read-command write for `reg_addr` on PHY `phy` stands at index
/// `m` of the history, issued only after an idle wait that ended on an idle
/// report.
pub open spec fn read_cmd_at(
    h0: Seq<SpiEvent>,
    h1: Seq<SpiEvent>,
    m: int,
    miim: u8,
    phy: u8,
    reg_addr: u8,
) -> bool {
    let n = h0.len() as int;
    &&& n + 1 <= m < h1.len()
    &&& m - n <= MIIM_POLL_LIMIT
    &&& pending_polls(h1, n, m - 1, miim)
    &&& status_poll(h1[m - 1], miim)
    &&& !stat_opr_pending(exchange_word(h1[m - 1]))
    &&& h1[m] == (SpiEvent::Write {
        tx: write_frame(mii_cmd_addr(miim), mii_read_cmd(phy, reg_addr)),
    })
}

/// The history shape of one complete raw MIIM register read, with `m` the
/// index of its command write: an idle wait ending idle, the read command,
/// a busy wait ending not-busy, and the data fetch, whose success field did
/// not report a PHY error and whose low 16 bits are `value`.
pub open spec fn miim_read_txn_at(
    h0: Seq<SpiEvent>,
    h1: Seq<SpiEvent>,
    m: int,
    miim: u8,
    phy: u8,
    reg_addr: u8,
    value: u16,
) -> bool {
    &&& h0.is_prefix_of(h1)
    &&& read_cmd_at(h0, h1, m, miim, phy, reg_addr)
    &&& m + 3 <= h1.len()
    &&& h1.len() - m - 2 <= MIIM_POLL_LIMIT
    &&& busy_polls(h1, m + 1, h1.len() - 2, miim)
    &&& status_poll(h1[h1.len() - 2], miim)
    &&& !stat_busy(exchange_word(h1[h1.len() - 2]))
    &&& is_reg_read_of(h1.last(), mii_data_addr(miim))
    &&& mii_data_success(exchange_word(h1.last())) != 0x3
    &&& value == mii_data_value(exchange_word(h1.last()))
}

/// The history shape of one complete raw MIIM register read.
pub open spec fn miim_read_txn(
    h0: Seq<SpiEvent>,
    h1: Seq<SpiEvent>,
    miim: u8,
    phy: u8,
    reg_addr: u8,
    value: u16,
) -> bool {
    exists |m: int| #![auto] miim_read_txn_at(h0, h1, m, miim, phy, reg_addr, value)
}

/// The history shape of a page-select sub-transaction: a raw write of the
/// page number to the page-select register.
pub open spec fn page_select_txn(
    h0: Seq<SpiEvent>,
    h1: Seq<SpiEvent>,
    miim: u8,
    phy: u8,
    page: u16,
) -> bool {
    miim_write_txn(h0, h1, miim, phy, PHY_PAGE_REG, page)
}

/// The history shape of one successful [`Vsc7448Spi::phy_read`]: a
/// page-select sub-transaction for the register's page, then the raw read
/// of the register, in that order, with nothing in between.
pub open spec fn phy_read_ok(
    h0: Seq<SpiEvent>,
    h1: Seq<SpiEvent>,
    miim: u8,
    phy: u8,
    reg: PhyRegisterAddress,
    value: u16,
) -> bool {
    exists |m: int| #![auto]
        h0.len() <= m <= h1.len() && page_select_txn(h0, h1.take(m), miim, phy, reg.page)
            && miim_read_txn(h1.take(m), h1, miim, phy, reg.addr, value)
}

/// The history shape of one successful [`Vsc7448Spi::phy_write`]: a
/// page-select sub-transaction for the register's page, then the raw write
/// of the register, in that order, with nothing in between.
pub open spec fn phy_write_ok(
    h0: Seq<SpiEvent>,
    h1: Seq<SpiEvent>,
    miim: u8,
    phy: u8,
    reg: PhyRegisterAddress,
    value: u16,
) -> bool {
    exists |m: int| #![auto]
        h0.len() <= m <= h1.len() && page_select_txn(h0, h1.take(m), miim, phy, reg.page)
            && miim_write_txn(h1.take(m), h1, miim, phy, reg.addr, value)
}

/// A reported PHY read error names the access that failed.
pub open spec fn read_err_matches(e: VscError, miim: u8, phy: u8, reg: PhyRegisterAddress) -> bool {
    e matches VscError::MiimReadErr { miim: m, phy: p, page, addr } ==> m == miim && p == phy
        && page == reg.page && addr == reg.addr
}

/// What a raw MIIM read that returned `e` put on the bus, and why `e` came
/// back.  The appended events are confined to the transaction's own frames:
/// status polls, then — only after an idle wait that ended idle — the one
/// read-command write, then status polls again, then at most the one final
/// data fetch.  The PHY-reported read error is returned exactly when the
/// transaction ran to its data fetch and the fetched word's success field
/// reported failure, and it names this access; the timeouts pin their exact
/// poll counts.
pub open spec fn miim_read_err(
    h0: Seq<SpiEvent>,
    h1: Seq<SpiEvent>,
    miim: u8,
    phy: u8,
    reg: PhyRegisterAddress,
    e: VscError,
) -> bool {
    let n = h0.len() as int;
    &&& h0.is_prefix_of(h1)
    &&& (only_status_polls(h0, h1, miim) || exists |m: int|
        #[trigger] read_cmd_at(h0, h1, m, miim, phy, reg.addr) && (forall |i: int|
            m + 1 <= i < h1.len() ==> status_poll(#[trigger] h1[i], miim) || (i == h1.len() - 1
                && is_reg_read_of(h1[i], mii_data_addr(miim)))))
    &&& (e matches VscError::MiimReadErr { miim: em, phy: ep, page: epage, addr: eaddr } ==> {
        &&& em == miim
        &&& ep == phy
        &&& epage == reg.page
        &&& eaddr == reg.addr
        &&& h1.len() > n
        &&& is_reg_read_of(h1.last(), mii_data_addr(miim))
        &&& mii_data_success(exchange_word(h1.last())) == 0x3
    })
    &&& ((h1.len() > n && is_reg_read_of(h1.last(), mii_data_addr(miim)) && mii_data_success(
        exchange_word(h1.last()),
    ) == 0x3) ==> e is MiimReadErr)
    &&& (e is MiimIdleTimeout ==> h1.len() == n + MIIM_POLL_LIMIT && pending_polls(
        h1,
        n,
        h1.len() as int,
        miim,
    ))
    &&& (e is MiimReadTimeout ==> exists |m: int|
        #[trigger] read_cmd_at(h0, h1, m, miim, phy, reg.addr) && h1.len() == m + 1
            + MIIM_POLL_LIMIT && busy_polls(h1, m + 1, h1.len() as int, miim))
}

/// What a failed [`Vsc7448Spi::phy_read`] put on the bus: either its
/// page-select sub-transaction failed — and then nothing but status polls
/// was issued, so the target register was never touched on a possibly wrong
/// page — or the page select completed first and the raw read failed as
/// [`miim_read_err`] says.
pub open spec fn phy_read_err(
    h0: Seq<SpiEvent>,
    h1: Seq<SpiEvent>,
    miim: u8,
    phy: u8,
    reg: PhyRegisterAddress,
    e: VscError,
) -> bool {
    let n = h0.len() as int;
    &&& h0.is_prefix_of(h1)
    &&& {
        ||| (only_status_polls(h0, h1, miim) && !(e is MiimReadTimeout) && !(e is MiimReadErr) && (
        e is MiimIdleTimeout ==> h1.len() == n + MIIM_POLL_LIMIT))
        ||| (exists |m: int| #![auto]
            n <= m <= h1.len() && page_select_txn(h0, h1.take(m), miim, phy, reg.page)
                && miim_read_err(h1.take(m), h1, miim, phy, reg, e))
    }
}

/// What a failed [`Vsc7448Spi::phy_write`] put on the bus: either its
/// page-select sub-transaction failed — nothing but status polls was
/// issued — or the page select completed and the raw write then failed
/// during its own idle wait or at its command write, again leaving only
/// status polls beyond the page select.  Neither phase reads data, so the
/// read-path errors cannot come back.
pub open spec fn phy_write_err(
    h0: Seq<SpiEvent>,
    h1: Seq<SpiEvent>,
    miim: u8,
    phy: u8,
    page: u16,
    e: VscError,
) -> bool {
    let n = h0.len() as int;
    &&& h0.is_prefix_of(h1)
    &&& !(e is MiimReadTimeout)
    &&& !(e is MiimReadErr)
    &&& {
        ||| (only_status_polls(h0, h1, miim) && (e is MiimIdleTimeout ==> h1.len() == n
            + MIIM_POLL_LIMIT))
        ||| (exists |m: int| #![auto]
            n <= m <= h1.len() && page_select_txn(h0, h1.take(m), miim, phy, page)
                && only_status_polls(h1.take(m), h1, miim) && (e is MiimIdleTimeout ==> h1.len()
                == m + MIIM_POLL_LIMIT))
    }
}

impl<B: SpiBus> Vsc7448Spi<B> {
    /// The typed address of controller `miim`'s status register.
    fn mii_status_reg(miim: u8) -> (r: RegisterAddress)
        ensures
            r.addr == mii_status_addr(miim),
            addr_in_window(r.addr),
    {
        RegisterAddress { addr: MIIM_BASE + (miim as u32) * MIIM_STRIDE }
    }

    /// The typed address of controller `miim`'s command register.
    fn mii_cmd_reg(miim: u8) -> (r: RegisterAddress)
        ensures
            r.addr == mii_cmd_addr(miim),
            addr_in_window(r.addr),
    {
        RegisterAddress { addr: MIIM_BASE + (miim as u32) * MIIM_STRIDE + MII_CMD_OFFSET }
    }

    /// The typed address of controller `miim`'s data register.
    fn mii_data_reg(miim: u8) -> (r: RegisterAddress)
        ensures
            r.addr == mii_data_addr(miim),
            addr_in_window(r.addr),
    {
        RegisterAddress { addr: MIIM_BASE + (miim as u32) * MIIM_STRIDE + MII_DATA_OFFSET }
    }

    /// The command register base value for `phy` and `reg_addr`: valid flag
    /// and addresses set, operation code and write data left clear.
    pub fn miim_cmd(phy: u8, reg_addr: u8) -> (c: u32)
        ensures
            c == mii_cmd_base(phy, reg_addr),
    {
        (1u32 << 31) | (((phy & 0x1F) as u32) << 25) | (((reg_addr & 0x1F) as u32) << 20)
    }

    /// Poll controller `miim`'s status register until the operation-pending
    /// flag clears, failing with [`VscError::MiimIdleTimeout`] after exactly
    /// [`MIIM_POLL_LIMIT`] polls that all reported pending.
    pub fn miim_idle_wait(&mut self, miim: u8) -> (r: Result<(), VscError>)
        ensures
            miim_idle_wait_post(old(self).bus.hist(), final(self).bus.hist(), miim, r),
    {
        let status_reg = Self::mii_status_reg(miim);
        let ghost h0 = self.bus.hist();
        let mut i: u32 = 0;
        while i < MIIM_POLL_LIMIT
            invariant
                i <= MIIM_POLL_LIMIT,
                h0 == old(self).bus.hist(),
                status_reg.addr == mii_status_addr(miim),
                addr_in_window(status_reg.addr),
                h0.is_prefix_of(self.bus.hist()),
                self.bus.hist().len() == h0.len() + i,
                pending_polls(self.bus.hist(), h0.len() as int, self.bus.hist().len() as int, miim),
            decreases MIIM_POLL_LIMIT - i,
        {
            let ghost hpre = self.bus.hist();
            match self.read(status_reg) {
                Ok(v) => {
                    proof {
                        crate::transport::lemma_prefix_trans(h0, hpre, self.bus.hist());
                        lemma_polls_survive_extension(hpre, self.bus.hist(), h0.len() as int, miim);
                    }
                    if v & MII_STATUS_OPR_PEND == 0 {
                        return Ok(());
                    }
                }
                Err(VscError::SuspiciousRead) => {
                    proof {
                        crate::transport::lemma_prefix_trans(h0, hpre, self.bus.hist());
                        lemma_polls_survive_extension(hpre, self.bus.hist(), h0.len() as int, miim);
                    }
                    return Err(VscError::SuspiciousRead);
                }
                Err(_) => {
                    return Err(VscError::SpiFault);
                }
            }
            i += 1;
        }
        Err(VscError::MiimIdleTimeout)
    }

    /// Poll controller `miim`'s status register until the busy flag clears,
    /// failing with [`VscError::MiimReadTimeout`] after exactly
    /// [`MIIM_POLL_LIMIT`] polls that all reported busy.
    pub fn miim_read_wait(&mut self, miim: u8) -> (r: Result<(), VscError>)
        ensures
            miim_read_wait_post(old(self).bus.hist(), final(self).bus.hist(), miim, r),
    {
        let status_reg = Self::mii_status_reg(miim);
        let ghost h0 = self.bus.hist();
        let mut i: u32 = 0;
        while i < MIIM_POLL_LIMIT
            invariant
                i <= MIIM_POLL_LIMIT,
                h0 == old(self).bus.hist(),
                status_reg.addr == mii_status_addr(miim),
                addr_in_window(status_reg.addr),
                h0.is_prefix_of(self.bus.hist()),
                self.bus.hist().len() == h0.len() + i,
                busy_polls(self.bus.hist(), h0.len() as int, self.bus.hist().len() as int, miim),
            decreases MIIM_POLL_LIMIT - i,
        {
            let ghost hpre = self.bus.hist();
            match self.read(status_reg) {
                Ok(v) => {
                    proof {
                        crate::transport::lemma_prefix_trans(h0, hpre, self.bus.hist());
                        lemma_polls_survive_extension(hpre, self.bus.hist(), h0.len() as int, miim);
                    }
                    if v & MII_STATUS_BUSY == 0 {
                        return Ok(());
                    }
                }
                Err(VscError::SuspiciousRead) => {
                    proof {
                        crate::transport::lemma_prefix_trans(h0, hpre, self.bus.hist());
                        lemma_polls_survive_extension(hpre, self.bus.hist(), h0.len() as int, miim);
                    }
                    return Err(VscError::SuspiciousRead);
                }
                Err(_) => {
                    return Err(VscError::SpiFault);
                }
            }
            i += 1;
        }
        Err(VscError::MiimReadTimeout)
    }

    /// Write PHY register `reg_addr` without touching the page: wait for the
    /// controller to go idle, then issue the write command.  Raw path; the
    /// page could be in an unknown state, so this is not public — callers go
    /// through [`Self::phy_write`], which selects the page first.
    fn phy_write_inner(&mut self, miim: u8, phy: u8, reg_addr: u8, value: u16) -> (r: Result<
        (),
        VscError,
    >)
        ensures
            match r {
                Ok(()) => miim_write_txn(
                    old(self).bus.hist(),
                    final(self).bus.hist(),
                    miim,
                    phy,
                    reg_addr,
                    value,
                ),
                Err(e) => only_status_polls(old(self).bus.hist(), final(self).bus.hist(), miim)
                    && !(e is MiimReadTimeout) && !(e is MiimReadErr) && (e is MiimIdleTimeout
                    ==> final(self).bus.hist().len() == old(self).bus.hist().len()
                    + MIIM_POLL_LIMIT),
            },
    {
        let ghost h0 = self.bus.hist();
        match self.miim_idle_wait(miim) {
            Ok(()) => {}
            Err(e) => {
                return Err(e);
            }
        }
        let ghost hmid = self.bus.hist();
        let cmd = Self::miim_cmd(phy, reg_addr) | ((value as u32) << 4) | (MII_CMD_OPR_WRITE << 1);
        let cmd_reg = Self::mii_cmd_reg(miim);
        match self.write(cmd_reg, cmd) {
            Ok(()) => {
                proof {
                    crate::transport::lemma_push_prefix(
                        hmid,
                        (SpiEvent::Write {
                            tx: write_frame(mii_cmd_addr(miim), mii_write_cmd(phy, reg_addr, value)),
                        }),
                    );
                    crate::transport::lemma_prefix_trans(h0, hmid, self.bus.hist());
                }
                Ok(())
            }
            Err(e) => Err(e),
        }
    }

    /// Read PHY register `reg.addr` without touching the page: wait for the
    /// controller to go idle, issue the read command, wait for data, fetch
    /// it, and check the PHY's success field.  Raw path, as with
    /// [`Self::phy_write_inner`].
    fn phy_read_inner(&mut self, miim: u8, phy: u8, reg: PhyRegisterAddress) -> (r: Result<
        u16,
        VscError,
    >)
        ensures
            match r {
                Ok(v) => miim_read_txn(
                    old(self).bus.hist(),
                    final(self).bus.hist(),
                    miim,
                    phy,
                    reg.addr,
                    v,
                ),
                Err(e) => miim_read_err(
                    old(self).bus.hist(),
                    final(self).bus.hist(),
                    miim,
                    phy,
                    reg,
                    e,
                ),
            },
    {
        let ghost h0 = self.bus.hist();
        match self.miim_idle_wait(miim) {
            Ok(()) => {}
            Err(e) => {
                proof {
                    lemma_idle_err_to_read_err(h0, self.bus.hist(), miim, phy, reg, e);
                }
                return Err(e);
            }
        }
        let ghost hidle = self.bus.hist();

        let cmd = Self::miim_cmd(phy, reg.addr) | (MII_CMD_OPR_READ << 1);
        let cmd_reg = Self::mii_cmd_reg(miim);
        match self.write(cmd_reg, cmd) {
            Ok(()) => {}
            Err(e) => {
                proof {
                    lemma_cmd_fault_to_read_err(h0, self.bus.hist(), miim, phy, reg, e);
                }
                return Err(e);
            }
        }
        let ghost hcmd = self.bus.hist();
        proof {
            crate::transport::lemma_push_prefix(
                hidle,
                (SpiEvent::Write { tx: write_frame(mii_cmd_addr(miim), mii_read_cmd(phy, reg.addr)) }),
            );
            crate::transport::lemma_prefix_trans(h0, hidle, self.bus.hist());
        }

        match self.miim_read_wait(miim) {
            Ok(()) => {}
            Err(e) => {
                proof {
                    lemma_wait_err_to_read_err(h0, hidle, hcmd, self.bus.hist(), miim, phy, reg, e);
                }
                return Err(e);
            }
        }
        let ghost hready = self.bus.hist();

        let data_reg = Self::mii_data_reg(miim);
        match self.read(data_reg) {
            Ok(out) => {
                if (out >> 16) & 0x3 == 0x3 {
                    proof {
                        lemma_fetch_done_to_read_err(
                            h0,
                            hidle,
                            hcmd,
                            hready,
                            self.bus.hist(),
                            miim,
                            phy,
                            reg,
                            (VscError::MiimReadErr { miim, phy, page: reg.page, addr: reg.addr }),
                            out,
                        );
                    }
                    return Err(VscError::MiimReadErr {
                        miim,
                        phy,
                        page: reg.page,
                        addr: reg.addr,
                    });
                }
                let value = #[verifier::truncate] ((out & 0xFFFF) as u16);
                proof {
                    lemma_read_txn_assembled(
                        h0,
                        hidle,
                        hcmd,
                        hready,
                        self.bus.hist(),
                        miim,
                        phy,
                        reg.addr,
                        value,
                    );
                }
                Ok(value)
            }
            Err(e) => {
                proof {
                    if e is SuspiciousRead {
                        lemma_fetch_done_to_read_err(
                            h0,
                            hidle,
                            hcmd,
                            hready,
                            self.bus.hist(),
                            miim,
                            phy,
                            reg,
                            e,
                            SENTINEL_WORD,
                        );
                    } else {
                        lemma_fetch_fault_to_read_err(
                            h0,
                            hidle,
                            hcmd,
                            self.bus.hist(),
                            miim,
                            phy,
                            reg,
                            e,
                        );
                    }
                }
                Err(e)
            }
        }
    }

    /// Read a PHY register through controller `miim`: select the register's
    /// page on the PHY, then perform the raw read.  The page is re-selected
    /// on every call, whatever any earlier call selected.
    pub fn phy_read(&mut self, miim: u8, phy: u8, reg: PhyRegisterAddress) -> (r: Result<
        u16,
        VscError,
    >)
        ensures
            match r {
                Ok(v) => phy_read_ok(old(self).bus.hist(), final(self).bus.hist(), miim, phy, reg, v)
                    && old(self).bus.hist().is_prefix_of(final(self).bus.hist()),
                Err(e) => phy_read_err(old(self).bus.hist(), final(self).bus.hist(), miim, phy, reg, e)
                    && read_err_matches(e, miim, phy, reg),
            },
    {
        let ghost h0 = self.bus.hist();
        match self.phy_write_inner(miim, phy, PHY_PAGE_REG, reg.page) {
            Ok(()) => {}
            Err(e) => {
                proof {
                    assert(phy_read_err(h0, self.bus.hist(), miim, phy, reg, e));
                }
                return Err(e);
            }
        }
        let ghost hpage = self.bus.hist();
        match self.phy_read_inner(miim, phy, reg) {
            Ok(v) => {
                proof {
                    lemma_split_point(h0, hpage, self.bus.hist());
                }
                Ok(v)
            }
            Err(e) => {
                proof {
                    let m = hpage.len() as int;
                    lemma_split_point(h0, hpage, self.bus.hist());
                    assert(page_select_txn(h0, self.bus.hist().take(m), miim, phy, reg.page));
                    assert(miim_read_err(self.bus.hist().take(m), self.bus.hist(), miim, phy, reg, e));
                    assert(phy_read_err(h0, self.bus.hist(), miim, phy, reg, e));
                }
                Err(e)
            }
        }
    }

    /// Write a PHY register through controller `miim`: select the register's
    /// page on the PHY, then perform the raw write.  The page is re-selected
    /// on every call, whatever any earlier call selected.
    pub fn phy_write(&mut self, miim: u8, phy: u8, reg: PhyRegisterAddress, value: u16) -> (r:
        Result<(), VscError>)
        ensures
            match r {
                Ok(()) => phy_write_ok(
                    old(self).bus.hist(),
                    final(self).bus.hist(),
                    miim,
                    phy,
                    reg,
                    value,
                ),
                Err(e) => phy_write_err(
                    old(self).bus.hist(),
                    final(self).bus.hist(),
                    miim,
                    phy,
                    reg.page,
                    e,
                ),
            },
    {
        let ghost h0 = self.bus.hist();
        match self.phy_write_inner(miim, phy, PHY_PAGE_REG, reg.page) {
            Ok(()) => {}
            Err(e) => {
                proof {
                    assert(phy_write_err(h0, self.bus.hist(), miim, phy, reg.page, e));
                }
                return Err(e);
            }
        }
        let ghost hpage = self.bus.hist();
        match self.phy_write_inner(miim, phy, reg.addr, value) {
            Ok(()) => {
                proof {
                    lemma_split_point(h0, hpage, self.bus.hist());
                }
                Ok(())
            }
            Err(e) => {
                proof {
                    let m = hpage.len() as int;
                    lemma_split_point(h0, hpage, self.bus.hist());
                    assert(page_select_txn(h0, self.bus.hist().take(m), miim, phy, reg.page));
                    assert(only_status_polls(self.bus.hist().take(m), self.bus.hist(), miim));
                    assert(phy_write_err(h0, self.bus.hist(), miim, phy, reg.page, e));
                }
                Err(e)
            }
        }
    }

    /// Read-modify-write a PHY register: a full [`Self::phy_read`] (page
    /// select included), then `f`, then a full [`Self::phy_write`] of the
    /// result (page select again).  Not atomic against other owners of the
    /// bus.
    pub fn phy_modify<F: Fn(u16) -> u16>(
        &mut self,
        miim: u8,
        phy: u8,
        reg: PhyRegisterAddress,
        f: F,
    ) -> (r: Result<(), VscError>)
        requires
            forall |v: u16| f.requires((v,)),
        ensures
            match r {
                Ok(()) => exists |m: int, v: u16, w: u16|
                    #![auto]
                    {
                        &&& old(self).bus.hist().len() <= m <= final(self).bus.hist().len()
                        &&& phy_read_ok(
                            old(self).bus.hist(),
                            final(self).bus.hist().take(m),
                            miim,
                            phy,
                            reg,
                            v,
                        )
                        &&& f.ensures((v,), w)
                        &&& phy_write_ok(
                            final(self).bus.hist().take(m),
                            final(self).bus.hist(),
                            miim,
                            phy,
                            reg,
                            w,
                        )
                    },
                Err(e) => {
                    &&& old(self).bus.hist().is_prefix_of(final(self).bus.hist())
                    &&& read_err_matches(e, miim, phy, reg)
                    &&& (phy_read_err(
                        old(self).bus.hist(),
                        final(self).bus.hist(),
                        miim,
                        phy,
                        reg,
                        e,
                    ) || exists |m: int, v: u16|
                        #![auto]
                        {
                            &&& old(self).bus.hist().len() <= m <= final(self).bus.hist().len()
                            &&& phy_read_ok(
                                old(self).bus.hist(),
                                final(self).bus.hist().take(m),
                                miim,
                                phy,
                                reg,
                                v,
                            )
                            &&& phy_write_err(
                                final(self).bus.hist().take(m),
                                final(self).bus.hist(),
                                miim,
                                phy,
                                reg.page,
                                e,
                            )
                        })
                },
            },
    {
        let ghost h0 = self.bus.hist();
        let v = match self.phy_read(miim, phy, reg) {
            Ok(v) => v,
            Err(e) => {
                return Err(e);
            }
        };
        let ghost hread = self.bus.hist();
        let w = f(v);
        match self.phy_write(miim, phy, reg, w) {
            Ok(()) => {
                proof {
                    lemma_split_point(h0, hread, self.bus.hist());
                }
                Ok(())
            }
            Err(e) => {
                proof {
                    let m = hread.len() as int;
                    lemma_split_point(h0, hread, self.bus.hist());
                    assert(phy_read_ok(h0, self.bus.hist().take(m), miim, phy, reg, v));
                    assert(phy_write_err(
                        self.bus.hist().take(m),
                        self.bus.hist(),
                        miim,
                        phy,
                        reg.page,
                        e,
                    ));
                }
                Err(e)
            }
        }
    }
}

/// Poll runs recorded in a history survive extending it: the pending and
/// busy runs of a prefix hold of the longer history too.
proof fn lemma_polls_survive_extension(hpre: Seq<SpiEvent>, h1: Seq<SpiEvent>, n: int, miim: u8)
    requires
        hpre.is_prefix_of(h1),
        0 <= n <= hpre.len(),
    ensures
        pending_polls(hpre, n, hpre.len() as int, miim) ==> pending_polls(
            h1,
            n,
            hpre.len() as int,
            miim,
        ),
        busy_polls(hpre, n, hpre.len() as int, miim) ==> busy_polls(
            h1,
            n,
            hpre.len() as int,
            miim,
        ),
{
    assert forall |i: int| n <= i < hpre.len() implies h1[i] == hpre[i] by {
        crate::transport::lemma_prefix_index(hpre, h1, i);
    }
}

/// The status and data registers of one controller answer to different
/// request frames: their word indices differ in the low byte, so a status
/// poll can never be mistaken for a data fetch in the history.
pub proof fn lemma_status_data_frames_differ(miim: u8)
    ensures
        read_frame(mii_status_addr(miim)) != read_frame(mii_data_addr(miim)),
{
    let s = mii_status_addr(miim);
    let d = mii_data_addr(miim);
    assert(d == s + 12 && 0x71000000 <= s <= 0x71013000);
    assert((((s & 0x00FFFFFF) >> 2) & 0xFF) as u8 != (((d & 0x00FFFFFF) >> 2) & 0xFF) as u8)
        by (bit_vector)
        requires
            d == s + 12,
            0x71000000 <= s <= 0x71013000,
    ;
    assert(read_frame(s)[2] != read_frame(d)[2]);
}

/// The sentinel pattern does not read as a PHY-reported error: its success
/// field is not `0b11`, so a suspicious read is never classified as
/// [`VscError::MiimReadErr`].
pub proof fn lemma_sentinel_not_phy_error()
    ensures
        mii_data_success(SENTINEL_WORD) != 0x3,
{
    assert((0x88888888u32 >> 16) & 0x3 != 0x3) by (bit_vector);
}

/// An error straight out of an idle wait leaves only that wait's status
/// polls in the history: no command was written, nothing was fetched.
proof fn lemma_idle_err_to_read_err(
    h0: Seq<SpiEvent>,
    h1: Seq<SpiEvent>,
    miim: u8,
    phy: u8,
    reg: PhyRegisterAddress,
    e: VscError,
)
    requires
        miim_idle_wait_post(h0, h1, miim, Err(e)),
    ensures
        miim_read_err(h0, h1, miim, phy, reg, e),
{
    lemma_status_data_frames_differ(miim);
    let n = h0.len() as int;
    if h1.len() > n {
        assert(status_poll(h1[h1.len() - 1], miim));
        assert(h1.last() == h1[h1.len() - 1]);
    }
    assert(only_status_polls(h0, h1, miim));
}

/// A fault on the command write leaves only the completed idle wait's
/// status polls in the history.
proof fn lemma_cmd_fault_to_read_err(
    h0: Seq<SpiEvent>,
    h1: Seq<SpiEvent>,
    miim: u8,
    phy: u8,
    reg: PhyRegisterAddress,
    e: VscError,
)
    requires
        miim_idle_wait_post(h0, h1, miim, Ok(())),
        e is SpiFault,
    ensures
        miim_read_err(h0, h1, miim, phy, reg, e),
{
    lemma_status_data_frames_differ(miim);
    assert(h1.last() == h1[h1.len() - 1]);
    assert(only_status_polls(h0, h1, miim));
}

/// Transfers a completed idle wait and the command write that followed it
/// into the longer history: the read command stands at the idle wait's end.
proof fn lemma_read_cmd_established(
    h0: Seq<SpiEvent>,
    hidle: Seq<SpiEvent>,
    hcmd: Seq<SpiEvent>,
    h1: Seq<SpiEvent>,
    miim: u8,
    phy: u8,
    reg_addr: u8,
)
    requires
        miim_idle_wait_post(h0, hidle, miim, Ok(())),
        hcmd == hidle.push(
            (SpiEvent::Write { tx: write_frame(mii_cmd_addr(miim), mii_read_cmd(phy, reg_addr)) }),
        ),
        hcmd.is_prefix_of(h1),
    ensures
        h0.is_prefix_of(h1),
        read_cmd_at(h0, h1, hidle.len() as int, miim, phy, reg_addr),
{
    let n = h0.len() as int;
    let m = hidle.len() as int;
    crate::transport::lemma_push_prefix(
        hidle,
        (SpiEvent::Write { tx: write_frame(mii_cmd_addr(miim), mii_read_cmd(phy, reg_addr)) }),
    );
    crate::transport::lemma_prefix_trans(h0, hidle, hcmd);
    crate::transport::lemma_prefix_trans(h0, hcmd, h1);
    crate::transport::lemma_prefix_trans(hidle, hcmd, h1);
    assert forall |i: int| n <= i < m - 1 implies status_poll(#[trigger] h1[i], miim)
        && stat_opr_pending(exchange_word(h1[i])) by {
        crate::transport::lemma_prefix_index(hidle, h1, i);
    }
    crate::transport::lemma_prefix_index(hidle, h1, m - 1);
    assert(hidle.last() == hidle[m - 1]);
    crate::transport::lemma_prefix_index(hcmd, h1, m);
}

/// An error out of the busy wait: the command had been written; everything
/// the failed wait added is status polls.
proof fn lemma_wait_err_to_read_err(
    h0: Seq<SpiEvent>,
    hidle: Seq<SpiEvent>,
    hcmd: Seq<SpiEvent>,
    h1: Seq<SpiEvent>,
    miim: u8,
    phy: u8,
    reg: PhyRegisterAddress,
    e: VscError,
)
    requires
        miim_idle_wait_post(h0, hidle, miim, Ok(())),
        hcmd == hidle.push(
            (SpiEvent::Write { tx: write_frame(mii_cmd_addr(miim), mii_read_cmd(phy, reg.addr)) }),
        ),
        miim_read_wait_post(hcmd, h1, miim, Err(e)),
    ensures
        miim_read_err(h0, h1, miim, phy, reg, e),
{
    lemma_status_data_frames_differ(miim);
    let n = h0.len() as int;
    let m = hidle.len() as int;
    lemma_read_cmd_established(h0, hidle, hcmd, h1, miim, phy, reg.addr);
    assert forall |i: int| m + 1 <= i < h1.len() implies status_poll(#[trigger] h1[i], miim) by {}
    if h1.len() > m + 1 {
        assert(status_poll(h1[h1.len() - 1], miim));
        assert(h1.last() == h1[h1.len() - 1]);
    } else {
        assert(h1.last() == h1[m]);
    }
}

/// A transport fault on the data fetch: the command had been written and the
/// busy wait had completed; nothing further was appended.
proof fn lemma_fetch_fault_to_read_err(
    h0: Seq<SpiEvent>,
    hidle: Seq<SpiEvent>,
    hcmd: Seq<SpiEvent>,
    h1: Seq<SpiEvent>,
    miim: u8,
    phy: u8,
    reg: PhyRegisterAddress,
    e: VscError,
)
    requires
        miim_idle_wait_post(h0, hidle, miim, Ok(())),
        hcmd == hidle.push(
            (SpiEvent::Write { tx: write_frame(mii_cmd_addr(miim), mii_read_cmd(phy, reg.addr)) }),
        ),
        miim_read_wait_post(hcmd, h1, miim, Ok(())),
        e is SpiFault,
    ensures
        miim_read_err(h0, h1, miim, phy, reg, e),
{
    lemma_status_data_frames_differ(miim);
    let m = hidle.len() as int;
    lemma_read_cmd_established(h0, hidle, hcmd, h1, miim, phy, reg.addr);
    assert forall |i: int| m + 1 <= i < h1.len() implies status_poll(#[trigger] h1[i], miim) by {}
    assert(status_poll(h1[h1.len() - 1], miim));
    assert(h1.last() == h1[h1.len() - 1]);
}

/// The data fetch completed and decided the outcome: a sentinel word is the
/// dedicated suspicious-read error, and a word whose success field reports
/// failure is the PHY read error, naming this access.
proof fn lemma_fetch_done_to_read_err(
    h0: Seq<SpiEvent>,
    hidle: Seq<SpiEvent>,
    hcmd: Seq<SpiEvent>,
    hready: Seq<SpiEvent>,
    h1: Seq<SpiEvent>,
    miim: u8,
    phy: u8,
    reg: PhyRegisterAddress,
    e: VscError,
    w: u32,
)
    requires
        miim_idle_wait_post(h0, hidle, miim, Ok(())),
        hcmd == hidle.push(
            (SpiEvent::Write { tx: write_frame(mii_cmd_addr(miim), mii_read_cmd(phy, reg.addr)) }),
        ),
        miim_read_wait_post(hcmd, hready, miim, Ok(())),
        reads_register(hready, h1, mii_data_addr(miim), w),
        e is SuspiciousRead || e is MiimReadErr,
        e is SuspiciousRead ==> w == SENTINEL_WORD,
        e matches VscError::MiimReadErr { miim: em, phy: ep, page: epage, addr: eaddr } ==> em
            == miim && ep == phy && epage == reg.page && eaddr == reg.addr && mii_data_success(w)
            == 0x3,
    ensures
        miim_read_err(h0, h1, miim, phy, reg, e),
{
    lemma_sentinel_not_phy_error();
    let m = hidle.len() as int;
    crate::transport::lemma_prefix_trans(hcmd, hready, h1);
    lemma_read_cmd_established(h0, hidle, hcmd, h1, miim, phy, reg.addr);
    assert forall |i: int| m + 1 <= i < h1.len() implies status_poll(#[trigger] h1[i], miim) || (i
        == h1.len() - 1 && is_reg_read_of(h1[i], mii_data_addr(miim))) by {
        if i < h1.len() - 1 {
            crate::transport::lemma_prefix_index(hready, h1, i);
            assert(hready.last() == hready[hready.len() - 1]);
        }
    }
    assert(is_reg_read_of(h1.last(), mii_data_addr(miim)));
    assert(exchange_word(h1.last()) == w);
}

/// A history that passed through an intermediate state recovers that state
/// as a `take` of the final one.
proof fn lemma_split_point(h0: Seq<SpiEvent>, hmid: Seq<SpiEvent>, h1: Seq<SpiEvent>)
    requires
        h0.is_prefix_of(hmid),
        hmid.is_prefix_of(h1),
    ensures
        h0.is_prefix_of(h1),
        h1.take(hmid.len() as int) == hmid,
{
    crate::transport::lemma_prefix_trans(h0, hmid, h1);
    assert(h1.take(hmid.len() as int) =~= hmid);
}

/// Assembles [`miim_read_txn`] from the pieces the raw read path produces:
/// the idle wait, the command write, the busy wait, and the data fetch.
proof fn lemma_read_txn_assembled(
    h0: Seq<SpiEvent>,
    hidle: Seq<SpiEvent>,
    hcmd: Seq<SpiEvent>,
    hready: Seq<SpiEvent>,
    h1: Seq<SpiEvent>,
    miim: u8,
    phy: u8,
    reg_addr: u8,
    value: u16,
)
    requires
        miim_idle_wait_post(h0, hidle, miim, Ok(())),
        hcmd == hidle.push(
            (SpiEvent::Write { tx: write_frame(mii_cmd_addr(miim), mii_read_cmd(phy, reg_addr)) }),
        ),
        miim_read_wait_post(hcmd, hready, miim, Ok(())),
        hready.is_prefix_of(h1),
        h1.len() == hready.len() + 1,
        is_reg_read_of(h1.last(), mii_data_addr(miim)),
        mii_data_success(exchange_word(h1.last())) != 0x3,
        value == mii_data_value(exchange_word(h1.last())),
    ensures
        miim_read_txn(h0, h1, miim, phy, reg_addr, value),
{
    let n = h0.len() as int;
    let m = hidle.len() as int;
    crate::transport::lemma_push_prefix(
        hidle,
        (SpiEvent::Write { tx: write_frame(mii_cmd_addr(miim), mii_read_cmd(phy, reg_addr)) }),
    );
    crate::transport::lemma_prefix_trans(h0, hidle, hcmd);
    crate::transport::lemma_prefix_trans(h0, hcmd, hready);
    crate::transport::lemma_prefix_trans(h0, hready, h1);
    assert forall |i: int| n <= i < m - 1 implies status_poll(#[trigger] h1[i], miim)
        && stat_opr_pending(exchange_word(h1[i])) by {
        crate::transport::lemma_prefix_index(hidle, h1, i);
    }
    crate::transport::lemma_prefix_index(hidle, h1, m - 1);
    crate::transport::lemma_prefix_index(hcmd, h1, m);
    assert forall |i: int| m + 1 <= i < h1.len() - 2 implies status_poll(#[trigger] h1[i], miim)
        && stat_busy(exchange_word(h1[i])) by {
        crate::transport::lemma_prefix_index(hready, h1, i);
    }
    crate::transport::lemma_prefix_index(hready, h1, h1.len() - 2);
    assert(miim_read_txn_at(h0, h1, m, miim, phy, reg_addr, value));
}

/// A first status poll that reports the controller idle ends the idle wait
/// at once: success after exactly one poll, never more.
pub proof fn lemma_idle_wait_first_poll_decides(
    h0: Seq<SpiEvent>,
    h1: Seq<SpiEvent>,
    miim: u8,
    r: Result<(), VscError>,
)
    requires
        miim_idle_wait_post(h0, h1, miim, r),
        h1.len() > h0.len(),
        !stat_opr_pending(exchange_word(h1[h0.len() as int])),
        exchange_word(h1[h0.len() as int]) != SENTINEL_WORD,
    ensures
        r is Ok,
        h1.len() == h0.len() + 1,
{
    let n = h0.len() as int;
    match r {
        Ok(()) => {
            if h1.len() > n + 1 {
                assert(stat_opr_pending(exchange_word(h1[n])));
            }
        }
        Err(e) => {
            if h1.len() > n + 1 {
                assert(stat_opr_pending(exchange_word(h1[n])));
            } else {
                assert(h1.last() == h1[n]);
            }
        }
    }
}

/// A first status poll that reports the controller not busy ends the read
/// wait at once: success after exactly one poll, never more.
pub proof fn lemma_read_wait_first_poll_decides(
    h0: Seq<SpiEvent>,
    h1: Seq<SpiEvent>,
    miim: u8,
    r: Result<(), VscError>,
)
    requires
        miim_read_wait_post(h0, h1, miim, r),
        h1.len() > h0.len(),
        !stat_busy(exchange_word(h1[h0.len() as int])),
        exchange_word(h1[h0.len() as int]) != SENTINEL_WORD,
    ensures
        r is Ok,
        h1.len() == h0.len() + 1,
{
    let n = h0.len() as int;
    match r {
        Ok(()) => {
            if h1.len() > n + 1 {
                assert(stat_busy(exchange_word(h1[n])));
            }
        }
        Err(e) => {
            if h1.len() > n + 1 {
                assert(stat_busy(exchange_word(h1[n])));
            } else {
                assert(h1.last() == h1[n]);
            }
        }
    }
}

/// Every successful PHY read issues a page-select command write for its own
/// page within its own span of the history: a second consecutive read
/// re-selects its page even if the first already selected the same one.
pub proof fn lemma_phy_read_reissues_page_select(
    h0: Seq<SpiEvent>,
    h1: Seq<SpiEvent>,
    h2: Seq<SpiEvent>,
    miim: u8,
    phy: u8,
    first: PhyRegisterAddress,
    second: PhyRegisterAddress,
    v1: u16,
    v2: u16,
)
    requires
        phy_read_ok(h0, h1, miim, phy, first, v1),
        phy_read_ok(h1, h2, miim, phy, second, v2),
    ensures
        exists |j: int| #![auto]
            h1.len() <= j < h2.len() && h2[j] == (SpiEvent::Write {
                tx: write_frame(mii_cmd_addr(miim), mii_write_cmd(phy, PHY_PAGE_REG, second.page)),
            }),
{
    let m = choose |m: int| #![auto]
        h1.len() <= m <= h2.len() && page_select_txn(h1, h2.take(m), miim, phy, second.page)
            && miim_read_txn(h2.take(m), h2, miim, phy, second.addr, v2);
    let sel = h2.take(m);
    assert(sel.len() == m);
    let j = m - 1;
    assert(sel.last() == h2[j]);
    assert(h1.len() <= j < h2.len());
    assert(h2[j] == (SpiEvent::Write {
        tx: write_frame(mii_cmd_addr(miim), mii_write_cmd(phy, PHY_PAGE_REG, second.page)),
    }));
}

} // verus!
