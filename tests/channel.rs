use ballbot_teensy::events::{reset, set_led};
use ballbot_teensy::hardware::{Hardware, HwOp};
use ballbot_teensy::logger::SerialLogger;
use ballbot_teensy::protocol::{encode_call, format_record, END, FUNCTION_HEADER, READY, RETURN_HEADER};
use ballbot_teensy::serial::{oom, ReadOutcome, SerialComm};

fn ready_comm() -> SerialComm {
    let mut comm = SerialComm::new();
    let mut hw = Hardware::setup();
    comm.receive(&[READY]);
    assert_eq!(comm.read(&mut hw), ReadOutcome::Handshake);
    assert_eq!(comm.take_output(), vec![READY]);
    comm
}

#[test]
fn set_led_zero_turns_off() {
    let mut hw = Hardware::setup();
    set_led(&mut hw, vec![1]);
    assert!(hw.led());
    let reply = set_led(&mut hw, vec![0, 5, 6]);
    assert!(!hw.led());
    assert!(reply.is_empty());
    assert_eq!(hw.take_ops(), vec![HwOp::SetLed, HwOp::ClearLed]);
}

#[test]
fn set_led_nonzero_turns_on() {
    let mut hw = Hardware::setup();
    let reply = set_led(&mut hw, vec![7]);
    assert!(hw.led());
    assert!(reply.is_empty());
    set_led(&mut hw, vec![255, 0]);
    assert!(hw.led());
}

#[test]
fn set_led_empty_toggles() {
    let mut hw = Hardware::setup();
    let before = hw.led();
    let reply = set_led(&mut hw, vec![]);
    assert_ne!(hw.led(), before);
    assert!(reply.is_empty());
    set_led(&mut hw, vec![]);
    assert_eq!(hw.led(), before);
    assert_eq!(hw.take_ops(), vec![HwOp::ToggleLed, HwOp::ToggleLed]);
    assert!(hw.take_ops().is_empty());
}

#[test]
fn reset_counts_down_then_restarts() {
    let mut hw = Hardware::setup();
    reset(&mut hw, vec![1, 2, 3]);
    assert!(hw.led());
    let ops = hw.take_ops();
    assert_eq!(ops.len(), 23);
    for i in 0..11 {
        assert_eq!(ops[2 * i], HwOp::ToggleLed);
        assert_eq!(ops[2 * i + 1], HwOp::DelayMs(84));
    }
    assert_eq!(ops[22], HwOp::SystemReset);
}

#[test]
fn call_before_handshake_writes_nothing() {
    let mut comm = SerialComm::new();
    assert!(!comm.is_ready());
    comm.call("ping", &[7, 8]);
    assert!(comm.take_output().is_empty());
}

#[test]
fn call_after_handshake_frames_ping() {
    let mut comm = ready_comm();
    assert!(comm.is_ready());
    comm.call("ping", &[7, 8]);
    assert_eq!(
        comm.take_output(),
        vec![0x02, 4, b'p', b'i', b'n', b'g', 2, 0, 7, 8, 0x00]
    );
}

#[test]
fn encode_call_long_payload_length() {
    let payload = vec![9u8; 300];
    let frame = encode_call("x", &payload);
    assert_eq!(frame.len(), 1 + 1 + 1 + 2 + 300 + 1);
    assert_eq!(&frame[0..5], &[FUNCTION_HEADER, 1, b'x', 44, 1]);
    assert_eq!(frame[305], END);
}

#[test]
fn set_led_frame_dispatch() {
    let mut comm = ready_comm();
    let mut hw = Hardware::setup();
    comm.receive(&[0x02, 7, b's', b'e', b't', b'_', b'l', b'e', b'd', 1, 0, 1, 0x00]);
    assert_eq!(comm.read(&mut hw), ReadOutcome::Called);
    assert_eq!(comm.take_output(), vec![0x03]);
    assert!(hw.led());
    assert_eq!(comm.available(), 0);
}

#[test]
fn reset_frame_restarts_without_reply() {
    let mut comm = ready_comm();
    let mut hw = Hardware::setup();
    comm.receive(&[0x02, 5, b'r', b'e', b's', b'e', b't', 0, 0, 0x00]);
    assert_eq!(comm.read(&mut hw), ReadOutcome::Restart);
    assert!(comm.take_output().is_empty());
    assert_eq!(hw.take_ops().last(), Some(&HwOp::SystemReset));
}

#[test]
fn log_record_payload() {
    assert_eq!(
        format_record("INFO", "hi"),
        vec![4, b'I', b'N', b'F', b'O', 2, 0, b'h', b'i']
    );
}

#[test]
fn logger_sends_log_call_when_ready() {
    let mut logger = SerialLogger::init(ready_comm());
    assert!(logger.enabled());
    logger.log("INFO", "hi");
    let out = logger.serial_comm.as_mut().unwrap().take_output();
    assert_eq!(
        out,
        vec![0x02, 3, b'l', b'o', b'g', 9, 0, 4, b'I', b'N', b'F', b'O', 2, 0, b'h', b'i', 0x00]
    );
}

#[test]
fn logger_drops_records_before_handshake() {
    let mut logger = SerialLogger::init(SerialComm::new());
    logger.log("WARN", "lost");
    assert!(logger.serial_comm.as_mut().unwrap().take_output().is_empty());
    let mut unbound = SerialLogger { serial_comm: None };
    assert!(!unbound.enabled());
    unbound.log("INFO", "nowhere");
    assert!(unbound.serial_comm.is_none());
}

#[test]
fn unknown_function_gets_empty_return() {
    let mut comm = ready_comm();
    let mut hw = Hardware::setup();
    comm.receive(&[0x02, 3, b'f', b'o', b'o', 2, 0, 1, 2, 0x00, READY]);
    assert_eq!(comm.read(&mut hw), ReadOutcome::UnknownFunction);
    assert_eq!(comm.take_output(), vec![RETURN_HEADER]);
    assert!(hw.take_ops().is_empty());
    assert_eq!(comm.available(), 1);
}

#[test]
fn unknown_event_discards_available() {
    let mut comm = SerialComm::new();
    let mut hw = Hardware::setup();
    comm.receive(&[0x07, 0x02, 1, b'x', 0, 0, 0x00]);
    assert_eq!(comm.available(), 7);
    assert_eq!(comm.read(&mut hw), ReadOutcome::Discarded(0x07));
    assert_eq!(comm.available(), 0);
    assert!(comm.take_output().is_empty());
    assert!(hw.take_ops().is_empty());
}

#[test]
fn double_handshake_stays_ready() {
    let mut comm = SerialComm::new();
    let mut hw = Hardware::setup();
    comm.receive(&[READY, READY]);
    assert_eq!(comm.read(&mut hw), ReadOutcome::Handshake);
    assert!(comm.is_ready());
    assert_eq!(comm.read(&mut hw), ReadOutcome::Handshake);
    assert!(comm.is_ready());
    assert_eq!(comm.take_output(), vec![READY, READY]);
}

#[test]
fn idle_and_end_marker() {
    let mut comm = SerialComm::new();
    let mut hw = Hardware::setup();
    assert_eq!(comm.read(&mut hw), ReadOutcome::Idle);
    comm.receive(&[END, 0x09]);
    assert_eq!(comm.read(&mut hw), ReadOutcome::End);
    assert_eq!(comm.available(), 1);
    assert!(comm.take_output().is_empty());
}

#[test]
fn incomplete_frame_waits_for_rest() {
    let mut comm = ready_comm();
    let mut hw = Hardware::setup();
    comm.receive(&[0x02, 7, b's', b'e', b't']);
    assert_eq!(comm.read(&mut hw), ReadOutcome::Incomplete);
    assert_eq!(comm.available(), 5);
    comm.receive(&[b'_', b'l', b'e', b'd', 0, 0]);
    assert_eq!(comm.read(&mut hw), ReadOutcome::Incomplete);
    comm.receive(&[0x00]);
    assert_eq!(comm.read(&mut hw), ReadOutcome::Called);
    assert!(hw.led());
    assert_eq!(comm.take_output(), vec![RETURN_HEADER]);
}

#[test]
fn fatal_report_sent_as_panic_call() {
    let mut comm = ready_comm();
    oom(&mut comm, "oom");
    assert_eq!(
        comm.take_output(),
        vec![0x02, 5, b'p', b'a', b'n', b'i', b'c', 3, 0, b'o', b'o', b'm', 0x00]
    );
    let mut idle = SerialComm::new();
    oom(&mut idle, "oom");
    assert!(idle.take_output().is_empty());
}
