use switchctl::bridge::{Vsc7448Spi, VscError};
use switchctl::miim::PhyRegisterAddress;
use switchctl::script::{ScriptedReply, ScriptedSpiBus};

// MIIM controller 0 lives at 0x7101009C: status at word 0x4027, command at
// word 0x4029, data at word 0x402A.
const STATUS_FRAME: [u8; 3] = [0x00, 0x40, 0x27];
const DATA_FRAME: [u8; 3] = [0x00, 0x40, 0x2A];

fn bridge(replies: Vec<ScriptedReply>, fallback: u32) -> Vsc7448Spi<ScriptedSpiBus> {
    Vsc7448Spi::new(ScriptedSpiBus::new(replies, fallback, false))
}

#[test]
fn miim_cmd_sets_valid_and_addresses() {
    let c = Vsc7448Spi::<ScriptedSpiBus>::miim_cmd(5, 9);
    assert_eq!(c, 0x8000_0000 | (5 << 25) | (9 << 20));
}

#[test]
fn idle_wait_succeeds_on_first_clear_poll() {
    let mut s = bridge(vec![], 0);
    let r = s.miim_idle_wait(0);
    assert_eq!(r, Ok(()));
    assert_eq!(s.bus.exchange_log, vec![STATUS_FRAME.to_vec()]);
}

#[test]
fn idle_wait_times_out_after_exactly_32_pending_polls() {
    // Operation-pending flag (bit 2) stays set forever.
    let mut s = bridge(vec![], 0x4);
    let r = s.miim_idle_wait(0);
    assert_eq!(r, Err(VscError::MiimIdleTimeout));
    assert_eq!(s.bus.exchange_log.len(), 32);
    for tx in &s.bus.exchange_log {
        assert_eq!(tx, &STATUS_FRAME.to_vec());
    }
}

#[test]
fn idle_wait_succeeds_once_pending_clears() {
    let mut s = bridge(
        vec![
            ScriptedReply::Value(0x4),
            ScriptedReply::Value(0x4),
            ScriptedReply::Value(0x0),
        ],
        0x4,
    );
    let r = s.miim_idle_wait(0);
    assert_eq!(r, Ok(()));
    assert_eq!(s.bus.exchange_log.len(), 3);
}

#[test]
fn read_wait_succeeds_on_first_not_busy_poll() {
    let mut s = bridge(vec![], 0);
    let r = s.miim_read_wait(0);
    assert_eq!(r, Ok(()));
    assert_eq!(s.bus.exchange_log.len(), 1);
}

#[test]
fn read_wait_times_out_after_exactly_32_busy_polls() {
    // Busy flag (bit 3) stays set forever.
    let mut s = bridge(vec![], 0x8);
    let r = s.miim_read_wait(0);
    assert_eq!(r, Err(VscError::MiimReadTimeout));
    assert_eq!(s.bus.exchange_log.len(), 32);
}

#[test]
fn phy_read_selects_page_then_reads() {
    // Idle poll (page select), idle poll (read command), busy poll, data.
    let replies = vec![
        ScriptedReply::Value(0),
        ScriptedReply::Value(0),
        ScriptedReply::Value(0),
        ScriptedReply::Value(0x0001_5432),
    ];
    let mut s = bridge(replies, 0);
    let r = s.phy_read(0, 5, PhyRegisterAddress::new(2, 9));
    assert_eq!(r, Ok(0x5432));
    // Page-select command: write 2 to register 31 of PHY 5.
    assert_eq!(
        s.bus.write_log[0],
        vec![0x80, 0x40, 0x29, 0x8B, 0xF0, 0x00, 0x22]
    );
    // Read command for register 9 of PHY 5.
    assert_eq!(
        s.bus.write_log[1],
        vec![0x80, 0x40, 0x29, 0x8A, 0x90, 0x00, 0x04]
    );
    assert_eq!(s.bus.write_log.len(), 2);
    // Three status polls and one data fetch.
    assert_eq!(s.bus.exchange_log.len(), 4);
    assert_eq!(s.bus.exchange_log[3], DATA_FRAME.to_vec());
}

#[test]
fn phy_read_reissues_page_select_on_every_call() {
    let mut replies = Vec::new();
    for _ in 0..2 {
        replies.push(ScriptedReply::Value(0));
        replies.push(ScriptedReply::Value(0));
        replies.push(ScriptedReply::Value(0));
        replies.push(ScriptedReply::Value(0x0001_0000));
    }
    let mut s = bridge(replies, 0);
    let first = s.phy_read(0, 5, PhyRegisterAddress::new(2, 9));
    let second = s.phy_read(0, 5, PhyRegisterAddress::new(3, 9));
    assert_eq!(first, Ok(0));
    assert_eq!(second, Ok(0));
    assert_eq!(s.bus.write_log.len(), 4);
    // The second call wrote its own page select before its read command,
    // page 3 this time.
    assert_eq!(
        s.bus.write_log[2],
        vec![0x80, 0x40, 0x29, 0x8B, 0xF0, 0x00, 0x32]
    );
}

#[test]
fn phy_read_reissues_page_select_even_for_the_same_page() {
    let mut replies = Vec::new();
    for _ in 0..2 {
        replies.push(ScriptedReply::Value(0));
        replies.push(ScriptedReply::Value(0));
        replies.push(ScriptedReply::Value(0));
        replies.push(ScriptedReply::Value(0x0001_0000));
    }
    let mut s = bridge(replies, 0);
    s.phy_read(0, 5, PhyRegisterAddress::new(2, 9)).unwrap();
    s.phy_read(0, 5, PhyRegisterAddress::new(2, 9)).unwrap();
    assert_eq!(s.bus.write_log.len(), 4);
    assert_eq!(s.bus.write_log[2], s.bus.write_log[0]);
}

#[test]
fn phy_read_reports_phy_side_error_with_context() {
    let mut replies = Vec::new();
    replies.push(ScriptedReply::Value(0));
    replies.push(ScriptedReply::Value(0));
    replies.push(ScriptedReply::Value(0));
    // Success field 0b11: the PHY refused the read.
    replies.push(ScriptedReply::Value(0x0003_5432));
    let mut s = bridge(replies, 0);
    let r = s.phy_read(0, 5, PhyRegisterAddress::new(2, 9));
    assert_eq!(
        r,
        Err(VscError::MiimReadErr {
            miim: 0,
            phy: 5,
            page: 2,
            addr: 9,
        })
    );
}

#[test]
fn phy_read_times_out_when_controller_never_goes_idle() {
    let mut s = bridge(vec![], 0x4);
    let r = s.phy_read(0, 5, PhyRegisterAddress::new(2, 9));
    assert_eq!(r, Err(VscError::MiimIdleTimeout));
    assert_eq!(s.bus.exchange_log.len(), 32);
    assert_eq!(s.bus.write_log.len(), 0);
}

#[test]
fn phy_read_fault_during_page_select_issues_no_commands() {
    // The transport faults on the page select's first status poll: the
    // fault passes through unchanged and no command write is ever issued,
    // so the target register is never touched on a possibly wrong page.
    let mut s = bridge(vec![ScriptedReply::Fault], 0);
    let r = s.phy_read(0, 5, PhyRegisterAddress::new(2, 9));
    assert_eq!(r, Err(VscError::SpiFault));
    assert_eq!(s.bus.write_log.len(), 0);
}

#[test]
fn phy_read_suspicious_status_poll_is_not_a_phy_error() {
    // A status poll answering the sentinel ends the call with the
    // dedicated suspicious-read error, never the PHY read error.
    let mut s = bridge(vec![ScriptedReply::Value(0x88888888)], 0);
    let r = s.phy_read(0, 5, PhyRegisterAddress::new(2, 9));
    assert_eq!(r, Err(VscError::SuspiciousRead));
    assert_eq!(s.bus.write_log.len(), 0);
}

#[test]
fn phy_write_selects_page_then_writes_value() {
    let mut s = bridge(vec![], 0);
    let r = s.phy_write(0, 5, PhyRegisterAddress::new(2, 9), 0xBEEF);
    assert_eq!(r, Ok(()));
    assert_eq!(s.bus.write_log.len(), 2);
    assert_eq!(
        s.bus.write_log[0],
        vec![0x80, 0x40, 0x29, 0x8B, 0xF0, 0x00, 0x22]
    );
    // Write command with 0xBEEF in the data field (bits 19:4).
    assert_eq!(
        s.bus.write_log[1],
        vec![0x80, 0x40, 0x29, 0x8A, 0x9B, 0xEE, 0xF2]
    );
    // Two idle waits, one status poll each.
    assert_eq!(s.bus.exchange_log.len(), 2);
}

#[test]
fn phy_modify_reads_applies_and_writes_back() {
    let mut replies = Vec::new();
    replies.push(ScriptedReply::Value(0));
    replies.push(ScriptedReply::Value(0));
    replies.push(ScriptedReply::Value(0));
    replies.push(ScriptedReply::Value(0x0001_5432));
    let mut s = bridge(replies, 0);
    let r = s.phy_modify(0, 5, PhyRegisterAddress::new(2, 9), |v: u16| v | 0x8000);
    assert_eq!(r, Ok(()));
    // Two page selects, one read command, one write command.
    assert_eq!(s.bus.write_log.len(), 4);
    // The written value is the read value with the top bit set: 0xD432.
    assert_eq!(
        s.bus.write_log[3],
        vec![0x80, 0x40, 0x29, 0x8A, 0x9D, 0x43, 0x22]
    );
}

#[test]
fn miim_controllers_are_addressed_by_stride() {
    // Controller 1 sits one 0x24-byte block later: status word 0x4030.
    let mut s = bridge(vec![], 0);
    let r = s.miim_idle_wait(1);
    assert_eq!(r, Ok(()));
    assert_eq!(s.bus.exchange_log, vec![vec![0x00, 0x40, 0x30]]);
}
