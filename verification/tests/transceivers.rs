use switchctl::script::{ScriptedFpgaBus, ScriptedReply};
use switchctl::transceivers::{
    TransceiverI2COperation, Transceivers, TransceiversError, TransceiversI2CRequest,
};

fn transceivers(
    f0: Vec<ScriptedReply>,
    f1: Vec<ScriptedReply>,
) -> Transceivers<ScriptedFpgaBus> {
    Transceivers::new(
        ScriptedFpgaBus::new(f0, 0, false),
        ScriptedFpgaBus::new(f1, 0, false),
    )
}

#[test]
fn i2c_operation_codes() {
    assert_eq!(TransceiverI2COperation::Read.op_code(), 0);
    assert_eq!(TransceiverI2COperation::Write.op_code(), 1);
    assert_eq!(TransceiverI2COperation::RandomRead.op_code(), 2);
}

#[test]
fn i2c_request_encodes_mask_big_endian() {
    let request = TransceiversI2CRequest {
        reg: 1,
        num_bytes: 2,
        port_bcast_mask: 0xA55A,
        op: 5,
    };
    assert_eq!(request.encode(), vec![1, 2, 0xA5, 0x5A, 5]);
}

#[test]
fn presence_combines_both_fpga_halves() {
    let mut t = transceivers(
        vec![ScriptedReply::Value(0x1234)],
        vec![ScriptedReply::Value(0xABCD)],
    );
    assert_eq!(t.get_presence(), Ok(0xABCD1234));
    assert_eq!(t.fpga0.read_log, vec![0x10]);
    assert_eq!(t.fpga1.read_log, vec![0x10]);
}

#[test]
fn status_words_read_their_registers() {
    let mut t = transceivers(
        vec![
            ScriptedReply::Value(1),
            ScriptedReply::Value(2),
            ScriptedReply::Value(3),
        ],
        vec![
            ScriptedReply::Value(0),
            ScriptedReply::Value(0),
            ScriptedReply::Value(0),
        ],
    );
    assert_eq!(t.get_power_good(), Ok(1));
    assert_eq!(t.get_power_good_timeout(), Ok(2));
    assert_eq!(t.get_irq_rxlos(), Ok(3));
    assert_eq!(t.fpga0.read_log, vec![0x12, 0x14, 0x16]);
    assert_eq!(t.fpga1.read_log, vec![0x12, 0x14, 0x16]);
}

#[test]
fn presence_fault_skips_second_fpga() {
    let mut t = transceivers(vec![ScriptedReply::Fault], vec![]);
    assert_eq!(t.get_presence(), Err(TransceiversError::FpgaError));
    assert_eq!(t.fpga1.read_log.len(), 0);
}

#[test]
fn setup_i2c_read_writes_one_request_per_fpga() {
    let mut t = transceivers(vec![], vec![]);
    let r = t.setup_i2c_read(0x22, 4, 0x000F_0003);
    assert_eq!(r, Ok(()));
    // Each FPGA gets its half of the broadcast mask, big-endian, with the
    // random-read opcode shifted left of the start bit.
    assert_eq!(
        t.fpga0.write_bytes_log,
        vec![(0x20, vec![0x22, 4, 0x00, 0x03, 5])]
    );
    assert_eq!(
        t.fpga1.write_bytes_log,
        vec![(0x20, vec![0x22, 4, 0x00, 0x0F, 5])]
    );
}

#[test]
fn i2c_read_buffer_routes_by_port() {
    let mut t = transceivers(vec![ScriptedReply::Value(0xAB)], vec![]);
    let data = t.get_i2c_read_buffer(3, 8).unwrap();
    assert_eq!(data.len(), 8);
    assert_eq!(t.fpga0.read_log, vec![0x40]);
    assert_eq!(t.fpga1.read_log.len(), 0);

    let mut t = transceivers(vec![], vec![ScriptedReply::Value(0xCD)]);
    let data = t.get_i2c_read_buffer(20, 4).unwrap();
    assert_eq!(data.len(), 4);
    assert_eq!(t.fpga0.read_log.len(), 0);
    assert_eq!(t.fpga1.read_log, vec![0x40]);
}
