use switchctl::bridge::{window_contains, RegisterAddress, Vsc7448Spi, VscError};
use switchctl::script::{ScriptedReply, ScriptedSpiBus};

fn bridge(replies: Vec<ScriptedReply>, fallback: u32) -> Vsc7448Spi<ScriptedSpiBus> {
    Vsc7448Spi::new(ScriptedSpiBus::new(replies, fallback, false))
}

#[test]
fn window_bounds() {
    assert!(!window_contains(0x70FFFFFF));
    assert!(window_contains(0x71000000));
    assert!(window_contains(0x71010000));
    assert!(window_contains(0x72000000));
    assert!(!window_contains(0x72000001));
    assert!(!window_contains(0));
}

#[test]
fn read_sends_word_aligned_address_and_decodes_big_endian() {
    let mut s = bridge(vec![ScriptedReply::Value(0x12345678)], 0);
    let r = s.read(RegisterAddress::new(0x71010000));
    assert_eq!(r, Ok(0x12345678));
    // 0x010000 >> 2 == 0x4000, sent as three big-endian bytes.
    assert_eq!(s.bus.exchange_log, vec![vec![0x00, 0x40, 0x00]]);
}

#[test]
fn read_of_sentinel_is_a_suspicious_read() {
    let mut s = bridge(vec![ScriptedReply::Value(0x88888888)], 0);
    let r = s.read(RegisterAddress::new(0x71010000));
    assert_eq!(r, Err(VscError::SuspiciousRead));
    // The exchange did happen; the value was refused, not returned.
    assert_eq!(s.bus.exchange_log.len(), 1);
}

#[test]
fn read_propagates_transport_fault() {
    let mut s = bridge(vec![ScriptedReply::Fault], 0);
    let r = s.read(RegisterAddress::new(0x71010000));
    assert_eq!(r, Err(VscError::SpiFault));
}

#[test]
fn write_frame_sets_write_bit_and_carries_value_big_endian() {
    let mut s = bridge(vec![], 0);
    let r = s.write(RegisterAddress::new(0x71010000), 0xAABBCCDD);
    assert_eq!(r, Ok(()));
    assert_eq!(
        s.bus.write_log,
        vec![vec![0x80, 0x40, 0x00, 0xAA, 0xBB, 0xCC, 0xDD]]
    );
}

#[test]
fn write_propagates_transport_fault() {
    let bus = ScriptedSpiBus::new(vec![], 0, true);
    let mut s = Vsc7448Spi::new(bus);
    let r = s.write(RegisterAddress::new(0x71010000), 1);
    assert_eq!(r, Err(VscError::SpiFault));
}

#[test]
fn write_port_mask_splits_into_exactly_two_writes() {
    let mut s = bridge(vec![], 0);
    let r = s.write_port_mask(RegisterAddress::new(0x71010000), 1u64 << 40);
    assert_eq!(r, Ok(()));
    assert_eq!(s.bus.write_log.len(), 2);
    // Low 32 bits of the mask are zero.
    assert_eq!(
        s.bus.write_log[0],
        vec![0x80, 0x40, 0x00, 0x00, 0x00, 0x00, 0x00]
    );
    // The adjacent register gets bit 40 - 32 == 8, masked to 21 bits.
    assert_eq!(
        s.bus.write_log[1],
        vec![0x80, 0x40, 0x01, 0x00, 0x00, 0x01, 0x00]
    );
}

#[test]
fn write_port_mask_masks_high_half_to_21_bits() {
    let mut s = bridge(vec![], 0);
    let r = s.write_port_mask(RegisterAddress::new(0x71010000), 0xFFFF_FFFF_FFFF_FFFF);
    assert_eq!(r, Ok(()));
    assert_eq!(
        s.bus.write_log[0],
        vec![0x80, 0x40, 0x00, 0xFF, 0xFF, 0xFF, 0xFF]
    );
    assert_eq!(
        s.bus.write_log[1],
        vec![0x80, 0x40, 0x01, 0x00, 0x1F, 0xFF, 0xFF]
    );
}

#[test]
fn write_with_writes_the_built_value() {
    let mut s = bridge(vec![], 0);
    let r = s.write_with(RegisterAddress::new(0x71010000), |v: u32| v | 0x0000_0001);
    assert_eq!(r, Ok(()));
    assert_eq!(
        s.bus.write_log,
        vec![vec![0x80, 0x40, 0x00, 0x00, 0x00, 0x00, 0x01]]
    );
}

#[test]
fn modify_reads_then_writes_the_changed_value() {
    let mut s = bridge(vec![ScriptedReply::Value(0x10)], 0);
    let r = s.modify(RegisterAddress::new(0x71010000), |v: u32| v | 0x01);
    assert_eq!(r, Ok(()));
    assert_eq!(s.bus.exchange_log.len(), 1);
    assert_eq!(
        s.bus.write_log,
        vec![vec![0x80, 0x40, 0x00, 0x00, 0x00, 0x00, 0x11]]
    );
}

#[test]
fn modify_refuses_sentinel_before_writing() {
    let mut s = bridge(vec![ScriptedReply::Value(0x88888888)], 0);
    let r = s.modify(RegisterAddress::new(0x71010000), |v: u32| v);
    assert_eq!(r, Err(VscError::SuspiciousRead));
    assert_eq!(s.bus.write_log.len(), 0);
}
