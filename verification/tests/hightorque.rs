use motorbridge::bus::{CanBus, CanFrame};
use motorbridge::error::MotorError;
use motorbridge::hightorque::{
    can_ext_id_for_motor, decode_hightorque_read_reply, decode_read_reply, ext_frame,
    i16_from_le, i16_to_le, is_hightorque_model, pos_vel_tqe_bytes, send_hightorque_ext,
    status_for_motor, vel_tqe_bytes, HighTorqueStatus, HightorqueController,
};
use motorbridge::ht_commands::{
    hightorque_mode_steps, hightorque_scan_range, hightorque_send_count, read_request_bytes,
    HtRawArgs, HtStep,
};
use std::collections::VecDeque;
use std::sync::{Arc, Mutex};

#[derive(Clone, Default)]
struct SharedBus {
    rx: Arc<Mutex<VecDeque<CanFrame>>>,
    sent: Arc<Mutex<Vec<CanFrame>>>,
}

impl CanBus for SharedBus {
    fn send(&mut self, frame: CanFrame) -> Result<(), MotorError> {
        self.sent.lock().unwrap().push(frame);
        Ok(())
    }

    fn recv(&mut self, _timeout_ms: u64) -> Result<Option<CanFrame>, MotorError> {
        Ok(self.rx.lock().unwrap().pop_front())
    }

    fn shutdown(&mut self) -> Result<(), MotorError> {
        Ok(())
    }
}

fn reply(arbitration_id: u32, is_extended: bool, pos: i16, vel: i16, tqe: i16) -> CanFrame {
    let p = pos.to_le_bytes();
    let v = vel.to_le_bytes();
    let t = tqe.to_le_bytes();
    CanFrame {
        arbitration_id,
        data: [0x27, 0x01, p[0], p[1], v[0], v[1], t[0], t[1]],
        dlc: 8,
        is_extended,
        is_rx: true,
    }
}

#[test]
fn ext_id_sets_the_high_bit() {
    assert_eq!(can_ext_id_for_motor(1), 0x8001);
    assert_eq!(can_ext_id_for_motor(0x7F), 0x807F);
}

#[test]
fn le_bytes_round_trip() {
    for v in [0i16, 1, -1, 300, -300, i16::MIN, i16::MAX] {
        let (lo, hi) = i16_to_le(v);
        assert_eq!([lo, hi], v.to_le_bytes());
        assert_eq!(i16_from_le(lo, hi), v);
    }
}

#[test]
fn ext_frame_pads_and_caps() {
    let f = ext_frame(3, &[1, 2, 3], 3);
    assert_eq!(f.arbitration_id, 0x8003);
    assert_eq!(f.data, [1, 2, 3, 0, 0, 0, 0, 0]);
    assert_eq!(f.dlc, 3);
    assert!(f.is_extended);
    assert!(!f.is_rx);
    let g = ext_frame(3, &[9; 10], 12);
    assert_eq!(g.data, [9; 8]);
    assert_eq!(g.dlc, 8);
}

#[test]
fn decodes_a_read_reply() {
    let f = reply(0x0005, true, 1000, -20, 7);
    assert_eq!(
        decode_hightorque_read_reply(f),
        Some(HighTorqueStatus { motor_id: 5, pos_raw: 1000, vel_raw: -20, tqe_raw: 7 })
    );
    // A standard identifier whose low byte is zero carries the id in its second byte.
    let g = reply(0x0300, false, 1, 2, 3);
    assert_eq!(decode_hightorque_read_reply(g).map(|s| s.motor_id), Some(3));
    let mut short = f;
    short.dlc = 7;
    assert_eq!(decode_hightorque_read_reply(short), None);
    let mut other = f;
    other.data[0] = 0x28;
    assert_eq!(decode_hightorque_read_reply(other), None);
}

#[test]
fn status_for_motor_filters_by_id() {
    let f = reply(0x0005, true, 1, 2, 3);
    assert!(status_for_motor(f, 5).is_some());
    assert!(status_for_motor(f, 6).is_none());
}

#[test]
fn raw_feedback_keeps_seven_bit_id() {
    let f = reply(0x0185, true, 10, 20, 30);
    let s = decode_read_reply(f).expect("reply");
    assert_eq!(s.can_id, 0x05);
    assert_eq!(s.arbitration_id, 0x0185);
    assert_eq!((s.pos_raw, s.vel_raw, s.tqe_raw), (10, 20, 30));
    assert_eq!(s.status_code, 0);
}

#[test]
fn command_payload_layouts() {
    assert_eq!(pos_vel_tqe_bytes(0x0102, 0x0304, 0x0506), [0x07, 0x35, 0x04, 0x03, 0x06, 0x05, 0x02, 0x01]);
    assert_eq!(vel_tqe_bytes(0x0102, -1), [0x07, 0x07, 0x00, 0x80, 0x02, 0x01, 0xFF, 0xFF]);
    assert_eq!(read_request_bytes(), [0x17, 0x01, 0, 0, 0, 0, 0, 0]);
}

#[test]
fn send_ext_refuses_long_payload() {
    let mut bus = SharedBus::default();
    let err = send_hightorque_ext(&mut bus, 1, &[0; 9]).unwrap_err();
    assert_eq!(err, "payload too long (max 8 bytes)");
    assert!(bus.sent.lock().unwrap().is_empty());
    send_hightorque_ext(&mut bus, 2, &[0x17, 0x01]).expect("send");
    let sent = bus.sent.lock().unwrap();
    assert_eq!(sent.len(), 1);
    assert_eq!(sent[0].arbitration_id, 0x8002);
    assert_eq!(sent[0].dlc, 2);
    assert!(sent[0].is_extended);
}

#[test]
fn model_hints_accepted() {
    for m in ["", " HighTorque ", "ht", "AUTO", "default"] {
        assert!(is_hightorque_model(m), "{m}");
    }
    assert!(!is_hightorque_model("rs-00"));
}

#[test]
fn motor_sends_commands_and_accepts_its_status() {
    let bus = SharedBus::default();
    let ctrl = HightorqueController::new(bus.clone());
    assert!(ctrl.add_motor(1, 1, "4340").is_err());
    let mut motor = ctrl.add_motor(5, 1, "hightorque").expect("motor");
    motor.send_cmd_mit(1, 2, 3).expect("send");
    motor.disable().expect("stop");
    motor.send_cmd_pos_vel(4, 5).expect("pos-vel");
    motor.send_cmd_vel(6).expect("vel");
    motor.send_zero_position().expect("rezero");
    motor.store_parameters().expect("store");
    motor.send_feedback_request().expect("request");
    {
        let sent = bus.sent.lock().unwrap();
        assert_eq!(sent.len(), 7);
        assert_eq!(sent[0].data, [0x07, 0x35, 2, 0, 3, 0, 1, 0]);
        assert_eq!(sent[1].dlc, 3);
        assert_eq!(&sent[1].data[..3], &[0x01, 0x00, 0x00]);
        assert_eq!(sent[2].data, [0x07, 0x35, 5, 0, 0x00, 0x80, 4, 0]);
        assert_eq!(sent[3].data, [0x07, 0x07, 0x00, 0x80, 6, 0, 0x00, 0x80]);
        assert_eq!((sent[4].dlc, &sent[4].data[..7]), (7, &[0x40, 0x01, 0x04, 0x64, 0x20, 0x63, 0x0A][..]));
        assert_eq!((sent[5].dlc, &sent[5].data[..5]), (5, &[0x05, 0xB3, 0x02, 0x00, 0x00][..]));
        assert_eq!((sent[6].dlc, sent[6].data), (8, [0x17, 0x01, 0, 0, 0, 0, 0, 0]));
    }
    assert!(motor.clear_error().is_err());
    match motor.read_timeout_error() {
        MotorError::Timeout(m) => assert_eq!(m, "HighTorque read timeout on motor id 5"),
        _ => panic!("timeout"),
    }
    assert!(motor.send_cmd_force_pos().is_err());
    assert!(motor.ensure_control_mode(2).is_ok());
    assert!(motor.ensure_control_mode(5).is_err());
    assert!(!motor.accept_status(reply(0x0006, true, 1, 1, 1)));
    assert!(motor.latest_state().is_none());
    bus.rx.lock().unwrap().push_back(reply(0x0005, true, 9, 8, 7));
    assert_eq!(motor.recv_status(10).expect("recv"), true);
    assert_eq!(motor.latest_state().map(|s| s.pos_raw), Some(9));
    assert_eq!(motor.recv_status(10).expect("recv"), false);
}

#[test]
fn controller_opens_through_the_given_opener() {
    let ok = HightorqueController::new_socketcan("can0", |_ch: &str| Ok(SharedBus::default()));
    assert!(ok.is_ok());
    let err = HightorqueController::<SharedBus>::new_socketcan("can9", |ch: &str| {
        Err(MotorError::Io(format!("no such device {ch}")))
    });
    match err {
        Err(MotorError::Io(m)) => assert_eq!(m, "no such device can9"),
        _ => panic!("expected io error"),
    }
}

#[test]
fn mode_steps_per_mode() {
    let a = HtRawArgs { pos: 1, vel: 2, tqe: 3, vol: 4, cur: 5, period_ms: 100 };
    match hightorque_mode_steps("read", a).unwrap().as_slice() {
        [HtStep::ReadStatus] => {}
        _ => panic!("read"),
    }
    match hightorque_mode_steps("tqe", a).unwrap().as_slice() {
        [HtStep::Send(p)] => assert_eq!(p, &vec![0x05, 0x13, 3, 0]),
        _ => panic!("tqe"),
    }
    match hightorque_mode_steps("rezero", a).unwrap().as_slice() {
        [HtStep::Send(z), HtStep::PauseMs(1000), HtStep::Send(s)] => {
            assert_eq!(z, &vec![0x40, 0x01, 0x04, 0x64, 0x20, 0x63, 0x0A]);
            assert_eq!(s, &vec![0x05, 0xB3, 0x02, 0x00, 0x00]);
        }
        _ => panic!("rezero"),
    }
    match hightorque_mode_steps("pos-vel", a).unwrap().as_slice() {
        [HtStep::Send(p)] => assert_eq!(p, &vec![0x07, 0x35, 2, 0, 0x00, 0x80, 1, 0]),
        _ => panic!("pos-vel"),
    }
    let e = hightorque_mode_steps("spin", a).unwrap_err();
    assert_eq!(
        e,
        "unknown hightorque mode: spin. expected ping|scan|read|mit|pos|vel|tqe|volt|cur|pos-vel|pos-vel-tqe|stop|brake|rezero|conf-write|timed-read"
    );
}

#[test]
fn every_mode_payload_fits_one_frame() {
    let a = HtRawArgs { pos: -300, vel: 700, tqe: -2, vol: 12, cur: -9, period_ms: 50 };
    let modes = [
        "ping", "read", "pos", "vel", "tqe", "mit", "pos-vel", "pos-vel-tqe", "volt", "cur", "stop", "brake",
        "conf-write", "rezero", "timed-read",
    ];
    for m in modes {
        let steps = hightorque_mode_steps(m, a).unwrap();
        assert!(!steps.is_empty(), "{m}");
        for s in steps {
            if let HtStep::Send(p) = s {
                assert!(p.len() <= 8, "{m}");
            }
        }
    }
}

#[test]
fn send_count_and_scan_range() {
    assert_eq!(hightorque_send_count("read", 10), 1);
    assert_eq!(hightorque_send_count("mit", 0), 1);
    assert_eq!(hightorque_send_count("mit", 10), 10);
    assert_eq!(hightorque_scan_range(0, 300), Some((1, 127)));
    assert_eq!(hightorque_scan_range(5, 3), None);
}

#[test]
fn set_zero_position_pauses_between_rezero_and_store() {
    let bus = SharedBus::default();
    let ctrl = HightorqueController::new(bus.clone());
    let mut motor = ctrl.add_motor(3, 1, "ht").expect("motor");
    let seen_before_pause = Arc::new(Mutex::new(0usize));
    let probe = Arc::clone(&seen_before_pause);
    let sent = Arc::clone(&bus.sent);
    motor
        .set_zero_position(move || {
            *probe.lock().unwrap() = sent.lock().unwrap().len();
        })
        .expect("zero");
    assert_eq!(*seen_before_pause.lock().unwrap(), 1);
    let frames = bus.sent.lock().unwrap();
    assert_eq!(frames.len(), 2);
    assert_eq!(&frames[0].data[..7], &[0x40, 0x01, 0x04, 0x64, 0x20, 0x63, 0x0A]);
    assert_eq!(&frames[1].data[..5], &[0x05, 0xB3, 0x02, 0x00, 0x00]);
    assert_eq!(frames[1].arbitration_id, 0x8003);
}
