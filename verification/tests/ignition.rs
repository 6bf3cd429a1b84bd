use switchctl::ignition::{
    classify_response, Counters, IgnitionController, IgnitionError, LinkStatus, PowerState,
    Request, RequestKind, Response, Status, SystemType, Target,
};
use switchctl::script::{ScriptedFpgaBus, ScriptedReply};
use switchctl::target_register_address;

const BASE: u16 = 0x100;

// Target id 1: request register at BASE + 256 + 0x8, response right after.
const REQ_ADDR: u16 = 0x208;
const RESP_ADDR: u16 = 0x209;

fn controller(replies: Vec<ScriptedReply>, fallback: u32) -> IgnitionController<ScriptedFpgaBus> {
    IgnitionController::new(ScriptedFpgaBus::new(replies, fallback, false), BASE)
}

#[test]
fn address_layout() {
    assert_eq!(target_register_address(0x100, 0, 0), 0x100);
    assert_eq!(target_register_address(0x100, 2, 8), 0x308);
    assert_eq!(target_register_address(0, 255, 0x10), 255 * 256 + 0x10);
}

#[test]
fn target_power_state_follows_valid_and_power_bits() {
    // Not valid: no power state, whatever the other bits say.
    assert_eq!(Target(0x0).power_state(), None);
    assert_eq!(Target(0x020001).power_state(), None);
    // Valid with system power enabled (bit 1 of the status byte).
    assert_eq!(Target(0x020002).power_state(), Some(PowerState::On));
    // Valid with power disabled.
    assert_eq!(Target(0x000002).power_state(), Some(PowerState::Off));
    assert_eq!(Target(0x010002).power_state(), Some(PowerState::Off));
}

#[test]
fn target_decodes_system_type_and_status() {
    let t = Target(0x021103);
    assert!(t.present());
    assert!(t.valid());
    assert_eq!(t.system_type(), Some(SystemType(0x11)));
    assert_eq!(t.status(), Some(Status(0x02)));
    assert_eq!(Target(0x021101).system_type(), None);
    assert_eq!(Target(0x021101).status(), None);
}

#[test]
fn status_flags_decode() {
    let s = Status(0x2A);
    assert!(!s.controller_detected());
    assert!(s.system_power_enabled());
    assert!(!s.power_fault_a3());
    assert!(s.power_fault_a2());
    assert!(!s.rot_fault());
    assert!(s.sp_fault());
    let s = Status(0x15);
    assert!(s.controller_detected());
    assert!(!s.system_power_enabled());
    assert!(s.power_fault_a3());
    assert!(!s.power_fault_a2());
    assert!(s.rot_fault());
    assert!(!s.sp_fault());
}

#[test]
fn link_status_flags_decode() {
    assert!(LinkStatus(0x1).link_detected());
    assert!(!LinkStatus(0x1).target_state_valid());
    assert!(LinkStatus(0x2).target_state_valid());
    assert!(!LinkStatus(0x2).link_detected());
}

#[test]
fn request_encoding() {
    assert_eq!(Request::of_kind(RequestKind::NoCommand).0, 0);
    assert_eq!(Request::of_kind(RequestKind::PowerOn).0, 1);
    assert_eq!(Request::of_kind(RequestKind::PowerOff).0, 2);
    assert_eq!(Request::for_power_state(PowerState::On).0, 1);
    assert_eq!(Request::for_power_state(PowerState::Off).0, 2);
    let q = Request(0x05);
    assert_eq!(q.kind(), Some(RequestKind::PowerOn));
    assert!(q.pending());
    assert_eq!(Request(0x03).kind(), None);
    assert!(!Request(0x02).pending());
}

#[test]
fn response_classification() {
    assert!(Response(0x08).valid());
    assert_eq!(Response(0x08).kind(), 0);
    assert!(Response(0x09).valid());
    assert_eq!(Response(0x09).kind(), 1);
    assert!(!Response(0x00).valid());
    assert_eq!(classify_response(0x08), Ok(()));
    assert_eq!(classify_response(0x09), Err(IgnitionError::Nack));
    assert_eq!(classify_response(0x0C), Err(IgnitionError::InvalidValue));
}

#[test]
fn set_power_state_acked_on_first_poll() {
    let mut c = controller(vec![ScriptedReply::Value(0x08)], 0);
    let r = c.set_power_state(1, PowerState::On);
    assert_eq!(r, Ok(()));
    // The request write carried the power-on command.
    assert_eq!(c.bus.write8_log, vec![(REQ_ADDR, 1)]);
    // Exactly one poll: the remaining retries were not spent.
    assert_eq!(c.bus.read_log, vec![RESP_ADDR]);
    assert_eq!(c.bus.sleep_log, vec![5]);
}

#[test]
fn set_power_state_stops_on_first_valid_unexpected_response() {
    let mut c = controller(vec![ScriptedReply::Value(0x0C)], 0);
    let r = c.set_power_state(1, PowerState::On);
    assert_eq!(r, Err(IgnitionError::InvalidValue));
    assert_eq!(c.bus.read_log.len(), 1);
}

#[test]
fn set_power_state_reports_nack() {
    let mut c = controller(vec![ScriptedReply::Value(0x09)], 0);
    let r = c.set_power_state(1, PowerState::Off);
    assert_eq!(r, Err(IgnitionError::Nack));
    assert_eq!(c.bus.write8_log, vec![(REQ_ADDR, 2)]);
    assert_eq!(c.bus.read_log.len(), 1);
}

#[test]
fn ping_times_out_after_exactly_three_polls() {
    // The remote never raises the valid flag.
    let mut c = controller(vec![], 0);
    let r = c.ping(1);
    assert_eq!(r, Err(IgnitionError::Timeout));
    assert_eq!(c.bus.write8_log, vec![(REQ_ADDR, 0)]);
    assert_eq!(c.bus.read_log, vec![RESP_ADDR, RESP_ADDR, RESP_ADDR]);
    assert_eq!(c.bus.sleep_log, vec![5, 5, 5]);
}

#[test]
fn ping_succeeds_on_second_poll() {
    let mut c = controller(
        vec![ScriptedReply::Value(0x00), ScriptedReply::Value(0x08)],
        0,
    );
    let r = c.ping(1);
    assert_eq!(r, Ok(()));
    assert_eq!(c.bus.read_log.len(), 2);
}

#[test]
fn ping_propagates_write_fault_without_polling() {
    let bus = ScriptedFpgaBus::new(vec![], 0, true);
    let mut c = IgnitionController::new(bus, BASE);
    let r = c.ping(1);
    assert_eq!(r, Err(IgnitionError::FpgaError));
    assert_eq!(c.bus.read_log.len(), 0);
}

#[test]
fn ping_propagates_poll_fault_immediately() {
    let mut c = controller(vec![ScriptedReply::Fault], 0);
    let r = c.ping(1);
    assert_eq!(r, Err(IgnitionError::FpgaError));
    // The fault aborted the exchange: one attempt, no sleep, no retries.
    assert_eq!(c.bus.read_log.len(), 1);
    assert_eq!(c.bus.sleep_log.len(), 0);
}

#[test]
fn state_reads_target_register_masked() {
    let mut c = controller(vec![ScriptedReply::Value(0xFF021103)], 0);
    let r = c.state(1);
    assert_eq!(r, Ok(Target(0x021103)));
    assert_eq!(c.bus.read_log, vec![0x200]);
}

#[test]
fn counters_decode_per_byte() {
    let mut c = controller(vec![ScriptedReply::Value(0x00030201)], 0);
    let r = c.counters(1);
    assert_eq!(
        r,
        Ok(Counters {
            transmitter_lost: 1,
            packets_received: 2,
            packets_dropped: 3,
        })
    );
    assert_eq!(c.bus.read_log, vec![0x210]);
}

#[test]
fn link_status_and_response_and_request_read_their_registers() {
    let mut c = controller(
        vec![
            ScriptedReply::Value(0x03),
            ScriptedReply::Value(0x08),
            ScriptedReply::Value(0x05),
        ],
        0,
    );
    assert_eq!(c.link_status(1), Ok(LinkStatus(0x03)));
    assert_eq!(c.response(1), Ok(Response(0x08)));
    assert_eq!(c.request(1), Ok(Request(0x05)));
    assert_eq!(c.bus.read_log, vec![0x204, RESP_ADDR, REQ_ADDR]);
}

#[test]
fn set_request_writes_without_read_back() {
    let mut c = controller(vec![], 0);
    let r = c.set_request(1, Request(2));
    assert_eq!(r, Ok(()));
    assert_eq!(c.bus.write8_log, vec![(REQ_ADDR, 2)]);
    assert_eq!(c.bus.read_log.len(), 0);
}

#[test]
fn read_faults_surface_as_fpga_error() {
    let mut c = controller(vec![ScriptedReply::Fault], 0);
    assert_eq!(c.state(1), Err(IgnitionError::FpgaError));
}
