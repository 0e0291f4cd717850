use motorbridge::abi::{
    handle_op_refusal, status_code, HandleOp,
    clean_error_text, damiao_can_timeout_register, damiao_param_rid, hexfellow_mode_code,
    kind_name, robstride_status_code, BindStep, ControllerBinding, MotorKind, RobstrideFaults,
};
use motorbridge::bus::CanFrame;
use motorbridge::error::MotorError;
use motorbridge::modes::{
    to_damiao_mode, to_myactuator_mode, to_robstride_mode, DamiaoMode, MyActuatorMode,
    RobstrideMode,
};
use motorbridge::socketcan::{
    classic_frame_of, classic_raw_of, fd_frame_of, fd_raw_of, fd_socket_classic_frame_of,
    poll_timeout_ms, socketcanfd_hint, RawCanFdFrame, RawCanFrame,
};

fn frame(id: u32, ext: bool, dlc: u8) -> CanFrame {
    CanFrame { arbitration_id: id, data: [1, 2, 3, 4, 5, 6, 7, 8], dlc, is_extended: ext, is_rx: false }
}

#[test]
fn classic_socket_round_trip() {
    let raw = classic_raw_of(frame(0x123, false, 8)).expect("std id");
    assert_eq!((raw.can_id, raw.can_dlc), (0x123, 8));
    let back = classic_frame_of(raw);
    assert_eq!(back.arbitration_id, 0x123);
    assert_eq!(back.data, [1, 2, 3, 4, 5, 6, 7, 8]);
    assert!(back.is_rx && !back.is_extended);
    match classic_raw_of(frame(0x800, false, 8)) {
        Err(MotorError::InvalidArgument(m)) => {
            assert_eq!(m, "invalid arbitration_id 800, expected 11-bit std id")
        }
        _ => panic!("expected refusal"),
    }
    let big = classic_frame_of(RawCanFrame { can_id: 0xFFFF, can_dlc: 12, data: [0; 8] });
    assert_eq!((big.arbitration_id, big.dlc), (0x7FF, 8));
}

#[test]
fn fd_socket_round_trip() {
    let f = CanFrame { arbitration_id: 0x1ABCDEF, data: [9, 8, 7, 0, 0, 0, 0, 0], dlc: 3, is_extended: true, is_rx: false };
    let raw = fd_raw_of(f, true).expect("ext id");
    assert_eq!(raw.can_id, 0x8000_0000 | 0x1ABCDEF);
    assert_eq!((raw.len, raw.flags), (3, 0x01));
    assert!(raw.data[8..].iter().all(|b| *b == 0));
    let back = fd_frame_of(&raw).expect("fits");
    assert_eq!(back.arbitration_id, 0x1ABCDEF);
    assert_eq!(back.data, f.data);
    assert_eq!(back.dlc, 3);
    assert!(back.is_extended && back.is_rx);
    match fd_raw_of(frame(0x2000_0000, true, 8), false) {
        Err(MotorError::InvalidArgument(m)) => {
            assert_eq!(m, "invalid arbitration_id 20000000, expected 29-bit ext id")
        }
        _ => panic!("expected refusal"),
    }
    match fd_raw_of(frame(0x10, false, 9), false) {
        Err(MotorError::InvalidArgument(m)) => {
            assert_eq!(m, "invalid DLC 9, expected <= 8 for current frame model")
        }
        _ => panic!("expected refusal"),
    }
    let long = RawCanFdFrame { can_id: 1, len: 12, flags: 0, data: [0; 64] };
    match fd_frame_of(&long) {
        Err(MotorError::Unsupported(m)) => {
            assert_eq!(m, "received CAN-FD payload length 12 > 8 is not supported by current CanFrame")
        }
        _ => panic!("expected refusal"),
    }
    let c = fd_socket_classic_frame_of(RawCanFrame { can_id: 0x8000_0123, can_dlc: 2, data: [0; 8] });
    assert_eq!(c.arbitration_id, 0x123);
    assert!(c.is_extended);
}

#[test]
fn poll_timeouts_and_hints() {
    assert_eq!(poll_timeout_ms(5), 5);
    assert_eq!(poll_timeout_ms(u128::MAX), i32::MAX);
    assert!(socketcanfd_hint(Some(100), "can0").contains("can0"));
    assert_eq!(socketcanfd_hint(None, "can0"), "");
}

#[test]
fn mode_numbers() {
    assert_eq!(to_damiao_mode(1), Ok(DamiaoMode::Mit));
    assert_eq!(to_damiao_mode(4), Ok(DamiaoMode::ForcePos));
    assert_eq!(to_damiao_mode(5), Err("Damiao mode must be 1(MIT) / 2(POS_VEL) / 3(VEL) / 4(FORCE_POS)"));
    assert_eq!(to_robstride_mode(2), Ok(RobstrideMode::Position));
    assert!(to_robstride_mode(0).is_err());
    assert_eq!(to_myactuator_mode(3), Ok(MyActuatorMode::Velocity));
    assert!(to_myactuator_mode(4).is_err());
}

#[test]
fn abi_helpers() {
    assert_eq!(damiao_param_rid(21), Ok(21));
    assert_eq!(damiao_param_rid(300), Err("Damiao parameter/register id must be in 0..=255".to_string()));
    assert_eq!(damiao_can_timeout_register(50), 1000);
    assert_eq!(damiao_can_timeout_register(u32::MAX), u32::MAX);
    assert_eq!(hexfellow_mode_code(1), Ok(5));
    assert_eq!(hexfellow_mode_code(2), Ok(1));
    assert!(hexfellow_mode_code(3).is_err());
    let f = RobstrideFaults {
        uncalibrated: true,
        stall: false,
        magnetic_encoder_fault: true,
        overtemperature: false,
        overcurrent: false,
        undervoltage: true,
    };
    assert_eq!(robstride_status_code(&f), 0b101001);
    assert_eq!(clean_error_text("a\0b"), "a b");
    assert_eq!(kind_name(MotorKind::Robstride), "RobStride");
}

#[test]
fn controller_binding_is_for_good() {
    let mut b = ControllerBinding::Unbound("can0".to_string());
    match b.plan_bind(MotorKind::Damiao) {
        Ok(BindStep::Open(ch)) => assert_eq!(ch, "can0"),
        _ => panic!("open"),
    }
    b.bind(MotorKind::Damiao);
    assert!(matches!(b.plan_bind(MotorKind::Damiao), Ok(BindStep::Ready)));
    match b.plan_bind(MotorKind::Hightorque) {
        Err(m) => assert_eq!(m, "controller already bound to Damiao; use a separate controller"),
        _ => panic!("refuse"),
    }
}

#[test]
fn error_texts() {
    let e = MotorError::Timeout("no reply".to_string());
    assert_eq!(e.to_string(), "timeout: no reply");
    assert_eq!(e.message(), "no reply");
    assert_eq!(MotorError::Io("x".to_string()).to_string(), "io error: x");
}

#[test]
fn abi_operation_support() {
    assert_eq!(
        handle_op_refusal(HandleOp::SendMit, MotorKind::MyActuator),
        Some("send_mit is not supported for MyActuator; use pos-vel or vel")
    );
    assert_eq!(handle_op_refusal(HandleOp::SendMit, MotorKind::Damiao), None);
    assert_eq!(
        handle_op_refusal(HandleOp::ClearError, MotorKind::Robstride),
        Some("clear_error is not supported for RobStride ABI yet")
    );
    assert_eq!(handle_op_refusal(HandleOp::SendForcePos, MotorKind::Hightorque), None);
    assert_eq!(status_code::<u8>(&Ok(3)), 0);
    assert_eq!(status_code::<u8>(&Err("x".to_string())), -1);
}
