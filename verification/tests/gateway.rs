use motorbridge::gateway::args::{
    bind_is_local, build_scan_feedback_hints, build_scan_model_hints, is_benign_ws_disconnect, model_is_auto,
    parse_args_from, parse_hex_or_dec, parse_id_list_csv, parse_u32_hex_or_dec, ParsedArgs,
};
use motorbridge::gateway::message::{
    as_bool, as_u16, as_u64, parse_damiao_mode, parse_param_type, parse_param_value,
    parse_robstride_mode, parse_transport_in_msg, parse_vendor_in_msg,
    robstride_scan_feedback_ids, MsgValue,
};
use motorbridge::gateway::model::{myactuator_feedback_default, Target, Transport, Vendor};
use motorbridge::gateway::ops::{
    damiao_id_register_writes, damiao_ids_match, effective_feedback_id, param_kind,
    param_write_value, plan_set_id, plan_verify, robstride_id_matches, select_backend,
    wrong_kind_message, Backend, DamiaoIdChange, ParamKind, ParamWrite, SetIdPlan,
};
use motorbridge::gateway::scan::{damiao_probe_candidates, plan_scan};
use motorbridge::gateway::session::{
    control_op, refusal_for, reply_object, request_op, socket_step, switch_failed_message, ControlOp,
    ModeSwitch, SocketAction, SocketEvent, StreamTicker, SwitchStep,
};
use motorbridge::modes::{DamiaoMode, RobstrideMode};

fn s(x: &str) -> MsgValue {
    MsgValue::Str(x.to_string())
}

fn n(x: u64) -> MsgValue {
    MsgValue::Number { uint: Some(x), text: x.to_string() }
}

fn obj(members: Vec<(&str, MsgValue)>) -> MsgValue {
    MsgValue::Object(members.into_iter().map(|(k, v)| (k.to_string(), v)).collect())
}

fn target() -> Target {
    Target {
        vendor: Vendor::Damiao,
        transport: Transport::Auto,
        channel: "can0".to_string(),
        serial_port: "/dev/ttyACM0".to_string(),
        serial_baud: 921600,
        model: "auto".to_string(),
        motor_id: 1,
        feedback_id: 0x11,
    }
}

fn args(xs: &[&str]) -> Vec<String> {
    xs.iter().map(|x| x.to_string()).collect()
}

#[test]
fn hex_or_dec_numbers() {
    assert_eq!(parse_hex_or_dec("0x7F"), Ok(0x7F));
    assert_eq!(parse_hex_or_dec("127"), Ok(127));
    assert_eq!(
        parse_hex_or_dec("0xZZ"),
        Err("invalid integer 0xZZ: invalid digit found in string".to_string())
    );
    assert_eq!(
        parse_hex_or_dec("70000"),
        Err("invalid integer 70000: number too large to fit in target type".to_string())
    );
    assert_eq!(
        parse_hex_or_dec(""),
        Err("invalid integer : cannot parse integer from empty string".to_string())
    );
    assert_eq!(parse_u32_hex_or_dec("0x10000"), Ok(0x10000));
    // Printed ids read back.
    for v in [0u16, 9, 10, 255, 0x7FF, u16::MAX] {
        assert_eq!(parse_hex_or_dec(&v.to_string()), Ok(v));
        assert_eq!(parse_hex_or_dec(&format!("0x{v:X}")), Ok(v));
    }
}

#[test]
fn id_list_csv_skips_blank_and_bad_pieces() {
    assert_eq!(parse_id_list_csv("1, 0x10,,abc, 3 "), vec![1, 0x10, 3]);
    assert_eq!(parse_id_list_csv(""), Vec::<u16>::new());
}

#[test]
fn feedback_hints_each_once() {
    assert_eq!(build_scan_feedback_hints(0x10, 1), vec![0x11, 0x10, 0x17]);
    assert_eq!(build_scan_feedback_hints(0x11, 7), vec![0x17, 0x11]);
    assert_eq!(build_scan_feedback_hints(0x20, u16::MAX), vec![u16::MAX, 0x20, 0x11, 0x17]);
}

#[test]
fn model_hints_explicit_or_catalog() {
    assert_eq!(build_scan_model_hints(" 4310 "), vec!["4310".to_string()]);
    let all = build_scan_model_hints("AUTO");
    assert_eq!(all.len(), 15);
    assert_eq!(all[0], "4340P");
    assert_eq!(all[14], "6248P");
    assert_eq!(build_scan_model_hints("*").len(), 15);
    assert_eq!(build_scan_model_hints("").len(), 15);
}

#[test]
fn benign_disconnects() {
    assert!(is_benign_ws_disconnect("IO error: Broken pipe (os error 32)"));
    assert!(is_benign_ws_disconnect("Connection reset without closing handshake"));
    assert!(!is_benign_ws_disconnect("invalid json"));
    assert!(model_is_auto(" ALL "));
    assert!(!model_is_auto("4340"));
}

#[test]
fn command_line_defaults_and_vendor_defaults() {
    match parse_args_from(&args(&[])).unwrap() {
        ParsedArgs::Run(c) => {
            assert_eq!(c.bind, "0.0.0.0:9002");
            assert_eq!(c.target.vendor, Vendor::Damiao);
            assert_eq!(c.target.model, "auto");
            assert_eq!(c.target.feedback_id, 0x11);
            assert_eq!(c.dt_ms, 20);
        }
        ParsedArgs::Help => panic!("no help asked"),
    }
    match parse_args_from(&args(&["--vendor", "robstride", "--model", "4340"])).unwrap() {
        ParsedArgs::Run(c) => {
            assert_eq!(c.target.model, "rs-00");
            assert_eq!(c.target.feedback_id, 0xFF);
        }
        ParsedArgs::Help => panic!("no help asked"),
    }
    assert!(matches!(parse_args_from(&args(&["-h"])).unwrap(), ParsedArgs::Help));
    assert_eq!(
        parse_args_from(&args(&["--bind"])).unwrap_err(),
        "missing value for --bind"
    );
    assert_eq!(parse_args_from(&args(&["--foo", "1"])).unwrap_err(), "unknown arg: --foo");
    assert_eq!(
        parse_args_from(&args(&["--vendor", "acme"])).unwrap_err(),
        "unsupported vendor: acme"
    );
}

#[test]
fn message_fields() {
    let v = obj(vec![
        ("motor_id", s("0x10")),
        ("big", n(0x1_0005)),
        ("flag", MsgValue::Bool(true)),
        ("vendor", s("RobStride")),
        ("transport", s("can")),
    ]);
    assert_eq!(as_u16(&v, "motor_id", 1), 0x10);
    assert_eq!(as_u16(&v, "big", 1), 5);
    assert_eq!(as_u16(&v, "missing", 9), 9);
    assert_eq!(as_u64(&v, "big", 0), 0x1_0005);
    assert!(as_bool(&v, "flag", false));
    assert_eq!(parse_vendor_in_msg(&v, Vendor::Damiao), Ok(Vendor::Robstride));
    assert_eq!(
        parse_transport_in_msg(&v, Transport::Auto),
        Err("unsupported transport: can".to_string())
    );
    assert_eq!(parse_vendor_in_msg(&obj(vec![]), Vendor::Hexfellow), Ok(Vendor::Hexfellow));
}

#[test]
fn modes_by_name_or_number() {
    assert_eq!(parse_damiao_mode(&obj(vec![("mode", s("pos_vel"))])), Ok(DamiaoMode::PosVel));
    assert_eq!(parse_damiao_mode(&obj(vec![("mode", n(4))])), Ok(DamiaoMode::ForcePos));
    assert_eq!(parse_robstride_mode(&obj(vec![("mode", n(2))])), Ok(RobstrideMode::Velocity));
    assert_eq!(
        parse_robstride_mode(&obj(vec![("mode", n(3))])),
        Err("unsupported robstride mode value: 3".to_string())
    );
    assert!(parse_robstride_mode(&obj(vec![])).is_err());
}

#[test]
fn param_type_and_value_text() {
    assert_eq!(parse_param_type(&obj(vec![("type", s("U16"))])), "u16");
    assert_eq!(parse_param_type(&obj(vec![])), "f32");
    assert_eq!(parse_param_value(&obj(vec![("value", MsgValue::Bool(true))])), Some("1".to_string()));
    assert_eq!(parse_param_value(&obj(vec![("value", n(12))])), Some("12".to_string()));
    assert_eq!(parse_param_value(&obj(vec![("value", MsgValue::Null)])), Some(String::new()));
    assert_eq!(parse_param_value(&obj(vec![])), None);
}

#[test]
fn robstride_feedback_ids_from_message() {
    let v = obj(vec![("feedback_ids", MsgValue::Array(vec![n(0xFF), s("0x10"), s("x")]))]);
    assert_eq!(robstride_scan_feedback_ids(&v, 0x20), vec![0xFF, 0x10]);
    let w = obj(vec![("feedback_ids", s("1,2"))]);
    assert_eq!(robstride_scan_feedback_ids(&w, 0x20), vec![1, 2]);
    assert_eq!(robstride_scan_feedback_ids(&obj(vec![]), 0x20), vec![0x20, 0xFF, 0xFE, 0x00]);
}

#[test]
fn scan_plans() {
    let p = plan_scan(&obj(vec![]), Vendor::Damiao, Transport::Auto).unwrap();
    assert_eq!((p.start_id, p.end_id, p.timeout_ms, p.feedback_base), (1, 16, 100, 16));
    let r = plan_scan(&obj(vec![("vendor", s("robstride"))]), Vendor::Damiao, Transport::Auto).unwrap();
    assert_eq!((r.start_id, r.end_id, r.timeout_ms, r.param_id), (1, 255, 120, 0x7019));
    let m = plan_scan(&obj(vec![("end_id", n(100))]), Vendor::Myactuator, Transport::Auto).unwrap();
    assert_eq!((m.start_id, m.end_id), (1, 32));
    assert_eq!(
        plan_scan(&obj(vec![("start_id", n(40))]), Vendor::Myactuator, Transport::Auto).unwrap_err(),
        "invalid scan range: expected start in 1..32 and start<=end"
    );
    let h = plan_scan(&obj(vec![("start_id", n(0)), ("end_id", n(500))]), Vendor::Hightorque, Transport::Auto)
        .unwrap();
    assert_eq!((h.start_id, h.end_id, h.timeout_ms), (1, 127, 80));
    assert_eq!(
        plan_scan(&obj(vec![("start_id", n(5)), ("end_id", n(3))]), Vendor::Damiao, Transport::Auto)
            .unwrap_err(),
        "end_id must be >= start_id"
    );
    let x = plan_scan(&obj(vec![]), Vendor::Hexfellow, Transport::SocketCanFd).unwrap();
    assert_eq!((x.start_id, x.end_id, x.timeout_ms), (1, 32, 200));
}

#[test]
fn probe_candidates_in_order() {
    let c = damiao_probe_candidates(&vec![0x11, 0x17], &vec!["4340".to_string(), "4310".to_string()]);
    let got: Vec<(u16, &str)> = c.iter().map(|(f, m)| (*f, m.as_str())).collect();
    assert_eq!(got, vec![(0x11, "4340"), (0x11, "4310"), (0x17, "4340"), (0x17, "4310")]);
}

#[test]
fn backends_per_vendor() {
    assert_eq!(select_backend(Vendor::Damiao, Transport::DmSerial), Ok(Backend::DmSerial));
    assert_eq!(select_backend(Vendor::Robstride, Transport::Auto), Ok(Backend::ClassicCan));
    assert_eq!(select_backend(Vendor::Myactuator, Transport::SocketCanFd), Ok(Backend::CanFd));
    assert_eq!(
        select_backend(Vendor::Robstride, Transport::DmSerial),
        Err("transport dm-serial is damiao-only".to_string())
    );
    assert_eq!(select_backend(Vendor::Hexfellow, Transport::Auto), Ok(Backend::CanFd));
    assert_eq!(
        select_backend(Vendor::Hexfellow, Transport::SocketCan),
        Err("hexfellow requires transport socketcanfd (or auto)".to_string())
    );
    assert_eq!(
        select_backend(Vendor::Hightorque, Transport::SocketCanFd),
        Err("hightorque currently uses standard CAN transport only".to_string())
    );
}

#[test]
fn verify_requests_and_checks() {
    let q = plan_verify(&obj(vec![("motor_id", n(3)), ("model", s("4310"))]), &target()).unwrap();
    assert_eq!((q.vendor, q.motor_id, q.feedback_id, q.timeout_ms), (Vendor::Damiao, 3, 0x11, 1000));
    assert_eq!(q.model, "4310");
    assert_eq!(plan_verify(&obj(vec![]), &target()).unwrap().model, "auto");
    assert!(damiao_ids_match(3, 0x13, 3, 0x13));
    assert!(!damiao_ids_match(3, 0x12, 3, 0x13));
    assert!(robstride_id_matches(0x05, 0x105));
    assert_eq!(effective_feedback_id(0, 2), 0x242);
    assert_eq!(effective_feedback_id(0x300, 2), 0x300);
    assert_eq!(myactuator_feedback_default(u16::MAX), u16::MAX);
}

#[test]
fn set_id_plans() {
    let v = obj(vec![("new_motor_id", n(4)), ("store", MsgValue::Bool(false))]);
    match plan_set_id(&v, &target()).unwrap() {
        SetIdPlan::Damiao(c) => {
            assert_eq!((c.old_motor_id, c.new_motor_id, c.new_feedback_id), (1, 4, 0x11));
            assert!(!c.store && c.verify);
            assert_eq!(damiao_id_register_writes(&c), vec![(8u8, 4u32)]);
        }
        _ => panic!("damiao"),
    }
    let both = DamiaoIdChange {
        old_motor_id: 1,
        old_feedback_id: 0x11,
        new_motor_id: 2,
        new_feedback_id: 0x12,
        store: true,
        verify: true,
        timeout_ms: 1000,
    };
    assert_eq!(damiao_id_register_writes(&both), vec![(7u8, 0x12u32), (8u8, 2u32)]);
    let r = obj(vec![("vendor", s("robstride")), ("new_motor_id", n(300))]);
    assert_eq!(plan_set_id(&r, &target()).unwrap_err(), "robstride new_motor_id must be 1..255");
    let ok = obj(vec![("vendor", s("robstride")), ("new_motor_id", n(9))]);
    match plan_set_id(&ok, &target()).unwrap() {
        SetIdPlan::Robstride(c) => assert_eq!(c.new_motor_id, 9),
        _ => panic!("robstride"),
    }
    let h = obj(vec![("vendor", s("hightorque"))]);
    assert_eq!(plan_set_id(&h, &target()).unwrap_err(), "set_id is not supported for hightorque");
}

#[test]
fn robstride_parameter_values() {
    assert_eq!(param_kind("i8"), ParamKind::I8);
    assert_eq!(param_kind("float"), ParamKind::F32);
    assert_eq!(param_write_value(ParamKind::I8, "0xFF"), Ok(ParamWrite::I8(-1)));
    assert_eq!(param_write_value(ParamKind::U8, "258"), Ok(ParamWrite::U8(2)));
    assert_eq!(param_write_value(ParamKind::U32, "0x10000"), Ok(ParamWrite::U32(0x10000)));
    assert_eq!(param_write_value(ParamKind::F32, "1.5"), Ok(ParamWrite::F32));
    assert_eq!(
        param_write_value(ParamKind::U16, "abc"),
        Err("invalid u16 value: invalid integer abc: invalid digit found in string".to_string())
    );
    assert_eq!(wrong_kind_message(0x7005, ParamKind::U8), "parameter 0x7005 is not u8");
    assert_eq!(wrong_kind_message(0x1f, ParamKind::U32), "parameter 0x001F is not u32");
}

#[test]
fn session_ops_and_refusals() {
    assert_eq!(request_op(&obj(vec![("op", s("MIT"))])), "mit");
    assert_eq!(request_op(&obj(vec![])), "");
    assert_eq!(control_op("pos-vel"), Some(ControlOp::PosVel));
    assert_eq!(control_op("mode_query"), Some(ControlOp::ModeQuery));
    assert_eq!(control_op("scan"), None);
    assert_eq!(refusal_for(ControlOp::Mit, None), Some("motor not connected".to_string()));
    assert_eq!(refusal_for(ControlOp::Mit, Some(Vendor::Damiao)), None);
    assert_eq!(
        refusal_for(ControlOp::Vel, Some(Vendor::Hexfellow)),
        Some("vel is not supported for hexfellow; use pos_vel or mit".to_string())
    );
    assert_eq!(
        refusal_for(ControlOp::Read, Some(Vendor::Damiao)),
        Some("read op is reserved for hightorque".to_string())
    );
    assert_eq!(refusal_for(ControlOp::Current, Some(Vendor::Myactuator)), None);
}

#[test]
fn state_stream_every_fifth_tick() {
    let mut t = StreamTicker::new();
    let sends: Vec<bool> = (0..10).map(|_| t.tick(true, true)).collect();
    assert_eq!(sends, vec![false, false, false, false, true, false, false, false, false, true]);
    assert!(!t.tick(false, true));
    assert_eq!(t.counter, 10);
    let mut w = StreamTicker { counter: u64::MAX };
    assert!(w.tick(true, true));
    assert_eq!(w.counter, 0);
}

#[test]
fn robstride_mode_switch_retries_three_times() {
    let mut sw = ModeSwitch::new(2);
    assert_eq!(sw.record(None), SwitchStep::Retry);
    assert_eq!(sw.record(Some(0)), SwitchStep::Retry);
    assert_eq!(sw.record(None), SwitchStep::Failed);
    assert_eq!(
        switch_failed_message("vel", sw.expect, sw.actual),
        "robstride vel mode switch failed: expect=2 actual=Some(0)"
    );
    let mut ok = ModeSwitch::new(1);
    assert_eq!(ok.record(Some(1)), SwitchStep::Done);
    assert_eq!(switch_failed_message("pos_vel", -3, None), "robstride pos_vel mode switch failed: expect=-3 actual=None");
}

#[test]
fn socket_events() {
    match socket_step(SocketEvent::Text(Ok(obj(vec![("op", s("Scan"))])))) {
        SocketAction::Dispatch(op) => assert_eq!(op, "scan"),
        _ => panic!("dispatch"),
    }
    match socket_step(SocketEvent::Text(Err("EOF".to_string()))) {
        SocketAction::ReplyError(m) => assert_eq!(m, "invalid json: EOF"),
        _ => panic!("reply"),
    }
    match socket_step(SocketEvent::RecvError("boom".to_string())) {
        SocketAction::Fail(m) => assert_eq!(m, "ws recv error: boom"),
        _ => panic!("fail"),
    }
    match socket_step(SocketEvent::Ping(vec![1, 2])) {
        SocketAction::Pong(p) => assert_eq!(p, vec![1, 2]),
        _ => panic!("pong"),
    }
    assert!(matches!(socket_step(SocketEvent::Close), SocketAction::Stop));
    assert!(matches!(socket_step(SocketEvent::Other), SocketAction::Ignore));
}

#[test]
fn vendor_and_transport_names() {
    for v in [Vendor::Damiao, Vendor::Hexfellow, Vendor::Hightorque, Vendor::Myactuator, Vendor::Robstride] {
        assert_eq!(Vendor::from_str(v.as_str()), Ok(v));
    }
    assert_eq!(Vendor::from_str("DAMIAO"), Ok(Vendor::Damiao));
    assert_eq!(Transport::from_str("SocketCANFD"), Ok(Transport::SocketCanFd));
    assert_eq!(Transport::from_str("dm-serial").map(|t| t.as_str()), Ok("dm-serial"));
}

#[test]
fn loopback_binds() {
    assert!(bind_is_local("127.0.0.1:9002"));
    assert!(bind_is_local("[::1]:9002"));
    assert!(bind_is_local("localhost:80"));
    assert!(!bind_is_local("0.0.0.0:9002"));
    assert!(!bind_is_local("127.0.0.1"));
}

#[test]
fn replies_carry_ok_op_result_and_req_id() {
    let r = reply_object(Some("scan".to_string()), Ok(MsgValue::Bool(true)), Some(MsgValue::Str("a1".to_string())));
    match r {
        MsgValue::Object(ms) => {
            let keys: Vec<&str> = ms.iter().map(|(k, _)| k.as_str()).collect();
            assert_eq!(keys, vec!["ok", "op", "data", "req_id"]);
            assert!(matches!(ms[0].1, MsgValue::Bool(true)));
            assert!(matches!(&ms[1].1, MsgValue::Str(s) if s == "scan"));
            assert!(matches!(ms[2].1, MsgValue::Bool(true)));
            assert!(matches!(&ms[3].1, MsgValue::Str(s) if s == "a1"));
        }
        _ => panic!("expected an object"),
    }
    match reply_object(None, Err("bad json".to_string()), None) {
        MsgValue::Object(ms) => {
            assert_eq!(ms.len(), 2);
            assert_eq!(ms[0].0, "ok");
            assert!(matches!(ms[0].1, MsgValue::Bool(false)));
            assert_eq!(ms[1].0, "error");
            assert!(matches!(&ms[1].1, MsgValue::Str(s) if s == "bad json"));
        }
        _ => panic!("expected an object"),
    }
}
