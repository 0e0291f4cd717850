use motorbridge::cli::{
    check_byte_scan_range, check_id_readback, cli_route, damiao_cli_id_writes, damiao_run_plan,
    default_feedback_id, default_mode, default_model, hexfellow_command, myactuator_run_plan,
    myactuator_scan_range, robstride_compat_model, robstride_probe_timeout_ms,
    robstride_run_plan, robstride_scan_range, unknown_damiao_mode, unknown_myactuator_mode,
    unknown_vendor_mode, CliRoute, CompatNote, DamiaoCliCommand, Finish, HexfellowCliCommand,
    MyActuatorCliCommand, RobstrideCliCommand,
};
use motorbridge::cli::robstride_cli_param_value;
use motorbridge::gateway::ops::{ParamKind, ParamWrite};
use motorbridge::modes::{DamiaoMode, RobstrideMode};

#[test]
fn vendor_defaults() {
    assert_eq!(default_model("robstride"), "rs-00");
    assert_eq!(default_model("myactuator"), "X8");
    assert_eq!(default_model("damiao"), "4340");
    assert_eq!(default_feedback_id("robstride"), 0x00FF);
    assert_eq!(default_feedback_id("hightorque"), 0x0001);
    assert_eq!(default_feedback_id("myactuator"), 0x0241);
    assert_eq!(default_feedback_id("damiao"), 0x0011);
    assert_eq!(default_mode("hightorque"), "read");
    assert_eq!(default_mode("all"), "scan");
    assert_eq!(default_mode("damiao"), "mit");
}

#[test]
fn routes() {
    assert_eq!(cli_route("damiao", "dm-serial", "mit"), Ok(CliRoute::Damiao));
    assert_eq!(
        cli_route("robstride", "dm-serial", "ping"),
        Err("transport=dm-serial is currently supported only for --vendor damiao".to_string())
    );
    assert_eq!(cli_route("all", "auto", "scan"), Ok(CliRoute::ScanAll));
    assert_eq!(
        cli_route("all", "auto", "mit"),
        Err("vendor=all currently supports --mode scan only".to_string())
    );
    assert_eq!(cli_route("acme", "auto", "mit"), Err("unknown vendor: acme".to_string()));
    assert_eq!(cli_route("myactuator", "auto", "status"), Ok(CliRoute::Myactuator));
}

#[test]
fn scan_ranges() {
    assert!(check_byte_scan_range(1, 255).is_ok());
    assert_eq!(
        check_byte_scan_range(0, 10),
        Err("invalid scan range: expected 1..255 and start<=end".to_string())
    );
    assert!(check_byte_scan_range(10, 256).is_err());
    assert!(check_byte_scan_range(10, 9).is_err());
    assert_eq!(robstride_scan_range(true, 1, 255), Ok((1, 32)));
    assert_eq!(robstride_scan_range(false, 1, 255), Ok((1, 255)));
    assert_eq!(
        robstride_scan_range(true, 40, 50),
        Ok((32, 32))
    );
    assert_eq!(robstride_probe_timeout_ms(true), 40);
    assert_eq!(robstride_probe_timeout_ms(false), 80);
    assert_eq!(myactuator_scan_range(2, 40), Ok((2, 32)));
    assert!(myactuator_scan_range(33, 40).is_err());
}

#[test]
fn compat_models() {
    assert_eq!(robstride_compat_model(false, "rs-03"), ("rs-03".to_string(), CompatNote::Kept));
    assert_eq!(robstride_compat_model(true, " HT "), ("rs-00".to_string(), CompatNote::Defaulted));
    assert_eq!(robstride_compat_model(true, ""), ("rs-00".to_string(), CompatNote::Defaulted));
    assert_eq!(robstride_compat_model(true, "RS-02"), ("RS-02".to_string(), CompatNote::Kept));
    assert_eq!(robstride_compat_model(true, "4340"), ("rs-00".to_string(), CompatNote::Fallback));
}

#[test]
fn damiao_plans() {
    let p = damiao_run_plan("pos-vel", true).unwrap();
    assert!(p.enable_first);
    assert_eq!(p.ensure_mode, Some(DamiaoMode::PosVel));
    assert_eq!(p.command, Some(DamiaoCliCommand::PosVel));
    assert_eq!(p.finish, Finish::Shutdown);
    let e = damiao_run_plan("enable", true).unwrap();
    assert!(!e.enable_first);
    assert_eq!(e.ensure_mode, None);
    assert_eq!(e.finish, Finish::CloseBus);
    assert_eq!(damiao_run_plan("spin", true), Err("unknown Damiao mode: spin".to_string()));
    let q = damiao_run_plan("spin", false).unwrap();
    assert_eq!(q.command, None);
    assert_eq!(unknown_damiao_mode("spin"), "unknown Damiao mode: spin");
}

#[test]
fn damiao_id_changes() {
    assert_eq!(damiao_cli_id_writes(Some(2), Some(0x12)), vec![(7u8, 0x12u32), (8u8, 2u32)]);
    assert_eq!(damiao_cli_id_writes(Some(2), None), vec![(8u8, 2u32)]);
    assert!(damiao_cli_id_writes(None, None).is_empty());
    assert!(check_id_readback(2, 0x12, 2, 0x12).is_ok());
    assert_eq!(
        check_id_readback(1, 0x11, 2, 0x1A),
        Err("id verify failed: expected ESC_ID=0x2, MST_ID=0x1A, got ESC_ID=0x1, MST_ID=0x11".to_string())
    );
}

#[test]
fn robstride_plans() {
    let p = robstride_run_plan("vel", true);
    assert!(p.enable_first);
    assert_eq!(p.ensure_mode, Some(RobstrideMode::Velocity));
    assert_eq!(p.command, Some(RobstrideCliCommand::Vel));
    assert_eq!(p.finish, Finish::Shutdown);
    let d = robstride_run_plan("disable", true);
    assert!(!d.enable_first);
    assert_eq!(d.ensure_mode, None);
    assert_eq!(d.finish, Finish::CloseBus);
    assert_eq!(robstride_run_plan("mit", false).ensure_mode, None);
    assert_eq!(robstride_run_plan("foo", true).command, None);
    assert_eq!(unknown_vendor_mode("hightorque", "foo"), "unknown hightorque mode: foo");
}

#[test]
fn myactuator_plans() {
    let p = myactuator_run_plan("pos");
    assert!(p.release_brake_first && p.position_setpoint_first);
    assert_eq!(p.command, Some(MyActuatorCliCommand::Pos));
    let d = myactuator_run_plan("disable");
    assert!(!d.release_brake_first);
    assert_eq!(d.finish, Finish::CloseBus);
    assert_eq!(myactuator_run_plan("mode-query").command, Some(MyActuatorCliCommand::ModeQuery));
    assert_eq!(myactuator_run_plan("x").command, None);
    assert_eq!(
        unknown_myactuator_mode("x"),
        "unknown MyActuator mode: x (supported: scan|enable|disable|stop|set-zero|status|current|vel|pos|version|mode-query)"
    );
}

#[test]
fn hexfellow_commands() {
    assert_eq!(hexfellow_command("auto", "scan"), Ok(HexfellowCliCommand::Scan));
    assert_eq!(hexfellow_command("socketcanfd", "mit"), Ok(HexfellowCliCommand::Mit));
    assert_eq!(
        hexfellow_command("socketcan", "mit"),
        Err("hexfellow only supports --transport auto|socketcanfd".to_string())
    );
    assert_eq!(
        hexfellow_command("auto", "vel"),
        Err("unknown hexfellow mode: expected scan|status|enable|disable|pos-vel|mit".to_string())
    );
}

#[test]
fn robstride_cli_parameter_values() {
    assert_eq!(robstride_cli_param_value(ParamKind::I8, "2"), Ok(ParamWrite::I8(2)));
    assert_eq!(robstride_cli_param_value(ParamKind::I8, "-128"), Ok(ParamWrite::I8(-128)));
    assert_eq!(robstride_cli_param_value(ParamKind::I8, "+7"), Ok(ParamWrite::I8(7)));
    assert_eq!(
        robstride_cli_param_value(ParamKind::I8, "-129"),
        Err("invalid --param-value: number too small to fit in target type".to_string())
    );
    assert_eq!(
        robstride_cli_param_value(ParamKind::I8, "128"),
        Err("invalid --param-value: number too large to fit in target type".to_string())
    );
    assert_eq!(
        robstride_cli_param_value(ParamKind::I8, "-"),
        Err("invalid --param-value: invalid digit found in string".to_string())
    );
    assert_eq!(
        robstride_cli_param_value(ParamKind::U8, ""),
        Err("invalid --param-value: cannot parse integer from empty string".to_string())
    );
    assert_eq!(robstride_cli_param_value(ParamKind::U16, "0x7019"), Ok(ParamWrite::U16(0x7019)));
    assert_eq!(robstride_cli_param_value(ParamKind::U32, "123"), Ok(ParamWrite::U32(123)));
    assert_eq!(robstride_cli_param_value(ParamKind::U32, "0xFFFFFFFF"), Ok(ParamWrite::U32(u32::MAX)));
    assert_eq!(robstride_cli_param_value(ParamKind::F32, "1.5"), Ok(ParamWrite::F32));
    // The same texts `str::parse` reads.
    for raw in ["0", "-1", "+12", "127", "-128", "1a", " 1", "--1", "+-1"] {
        let ours = robstride_cli_param_value(ParamKind::I8, raw);
        match raw.parse::<i8>() {
            Ok(v) => assert_eq!(ours, Ok(ParamWrite::I8(v)), "{raw}"),
            Err(e) => assert_eq!(ours, Err(format!("invalid --param-value: {e}")), "{raw}"),
        }
    }
}

#[test]
fn parse_robstride_param_value_uses_parameter_type() {
    // 0x7005 (run mode) is an i8, 0x7028 (CAN timeout) a u32, 0x7019 (mechanical
    // position) an f32 in RobStride's parameter table.
    let mode = robstride_cli_param_value(ParamKind::I8, "2").expect("int8 mode");
    let timeout = robstride_cli_param_value(ParamKind::U32, "123").expect("u32 timeout");
    let mech = robstride_cli_param_value(ParamKind::F32, "1.5").expect("f32 mech pos");

    match mode {
        ParamWrite::I8(v) => assert_eq!(v, 2),
        _ => panic!("expected I8"),
    }
    match timeout {
        ParamWrite::U32(v) => assert_eq!(v, 123),
        _ => panic!("expected U32"),
    }
    match mech {
        ParamWrite::F32 => {
            let v: f32 = "1.5".parse().expect("float");
            assert!((v - 1.5).abs() < 1e-6)
        }
        _ => panic!("expected F32"),
    }
}
