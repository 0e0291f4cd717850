use motorbridge::pcan::{
    bitrate_to_btr0btr1, frame_of_pcan_message, parse_channel_and_bitrate, pcan_message_of,
    pcan_status_to_error, reconnect_backoff_ms, PcanMessage,
};
use motorbridge::bus::CanFrame;
use motorbridge::error::MotorError;

#[test]
fn bitrate_mapping_has_common_values() {
    assert_eq!(bitrate_to_btr0btr1(1_000_000), Some(0x0014));
    assert_eq!(bitrate_to_btr0btr1(500_000), Some(0x001C));
    assert_eq!(bitrate_to_btr0btr1(125_000), Some(0x031C));
    assert_eq!(bitrate_to_btr0btr1(123_456), None);
}

#[test]
fn parse_channel_supports_can_aliases() {
    let (h0, b0) = parse_channel_and_bitrate("can0@1000000").expect("can0");
    let (h1, b1) = parse_channel_and_bitrate("can1@500000").expect("can1");
    assert_eq!(h0, 0x51);
    assert_eq!(b0, 0x0014);
    assert_eq!(h1, 0x52);
    assert_eq!(b1, 0x001C);
}

#[test]
fn parse_channel_supports_pcan_and_hex_and_numeric() {
    let (a, _) = parse_channel_and_bitrate("PCAN_USBBUS1@1000000").expect("pcan name");
    let (b, _) = parse_channel_and_bitrate("0x51@1000000").expect("hex");
    let (c, _) = parse_channel_and_bitrate("81@1000000").expect("numeric");
    assert_eq!(a, 0x51);
    assert_eq!(b, 0x51);
    assert_eq!(c, 81);
}

#[test]
fn parse_channel_rejects_invalid_inputs() {
    assert!(parse_channel_and_bitrate("canX@1000000").is_err());
    assert!(parse_channel_and_bitrate("PCAN_USBBUS0@1000000").is_err());
    assert!(parse_channel_and_bitrate("can0@123456").is_err());
}

fn invalid_argument_text(r: Result<(u16, u16), MotorError>) -> String {
    match r {
        Err(MotorError::InvalidArgument(m)) => m,
        other => panic!("expected an invalid-argument error, got {:?}", other),
    }
}

#[test]
fn channel_defaults_to_one_megabit_and_ignores_white_space() {
    assert_eq!(parse_channel_and_bitrate("can0").unwrap(), (0x51, 0x0014));
    assert_eq!(parse_channel_and_bitrate("  CAN0 @ 250000 ").unwrap(), (0x51, 0x011C));
    assert_eq!(parse_channel_and_bitrate("pcan_usbbus3@5000").unwrap(), (0x53, 0x7F7F));
    assert_eq!(parse_channel_and_bitrate("0xff").unwrap(), (0xFF, 0x0014));
    assert_eq!(parse_channel_and_bitrate("can+2").unwrap(), (0x53, 0x0014));
}

#[test]
fn channel_error_messages_name_the_cause() {
    assert_eq!(
        invalid_argument_text(parse_channel_and_bitrate("canX@1000000")),
        "invalid can index in channel 'canX@1000000': invalid digit found in string"
    );
    assert_eq!(
        invalid_argument_text(parse_channel_and_bitrate("PCAN_USBBUS0@1000000")),
        "PCAN_USBBUS index must start from 1"
    );
    assert_eq!(
        invalid_argument_text(parse_channel_and_bitrate("can0@123456")),
        "unsupported bitrate 123456, expected one of [1000000,800000,500000,250000,125000,100000,50000,20000,10000,5000]"
    );
    assert_eq!(
        invalid_argument_text(parse_channel_and_bitrate("can0@")),
        "invalid bitrate in channel 'can0@': cannot parse integer from empty string"
    );
    assert_eq!(
        invalid_argument_text(parse_channel_and_bitrate("can0@99999999999")),
        "invalid bitrate in channel 'can0@99999999999': number too large to fit in target type"
    );
    assert_eq!(
        invalid_argument_text(parse_channel_and_bitrate("can65535")),
        "channel index overflow"
    );
    assert_eq!(
        invalid_argument_text(parse_channel_and_bitrate("0xg1")),
        "invalid hex handle in channel '0xg1': invalid digit found in string"
    );
    assert_eq!(
        invalid_argument_text(parse_channel_and_bitrate("vcan0")),
        "unsupported channel 'vcan0', use can0/canN/PCAN_USBBUS1/0x51 and optional '@bitrate'"
    );
}

#[test]
fn status_error_shows_eight_hex_digits() {
    match pcan_status_to_error("PCAN initialize failed", 0x1C) {
        MotorError::Io(m) => assert_eq!(m, "PCAN initialize failed: PCAN status=0x0000001C"),
        other => panic!("unexpected {:?}", other),
    }
}

#[test]
fn pcan_messages_round_trip_frames() {
    let frame = CanFrame { arbitration_id: 0x8001, data: [1, 2, 3, 4, 5, 6, 7, 8], dlc: 5, is_extended: true, is_rx: false };
    let msg = pcan_message_of(frame).unwrap();
    assert_eq!((msg.id, msg.msg_type, msg.len, msg.data), (0x8001, 0x02, 5, [1, 2, 3, 4, 5, 6, 7, 8]));
    let back = frame_of_pcan_message(PcanMessage { id: 0x123, msg_type: 0, len: 12, data: [9; 8] });
    assert_eq!((back.arbitration_id, back.dlc, back.is_extended, back.is_rx), (0x123, 8, false, true));
    let bad = CanFrame { dlc: 9, ..frame };
    match pcan_message_of(bad) {
        Err(MotorError::InvalidArgument(m)) => assert_eq!(m, "invalid DLC 9, expected <= 8"),
        other => panic!("unexpected {:?}", other),
    }
}

#[test]
fn reconnect_backoff_schedule() {
    assert_eq!(reconnect_backoff_ms(0), Some(20));
    assert_eq!(reconnect_backoff_ms(1), Some(100));
    assert_eq!(reconnect_backoff_ms(2), Some(300));
    assert_eq!(reconnect_backoff_ms(3), None);
}

#[test]
fn can_names_select_usbbus_handles_and_bitrates() {
    assert_eq!(parse_channel_and_bitrate("can3").unwrap(), (0x54, 0x0014));
    let a = parse_channel_and_bitrate("can1@500000").unwrap();
    let b = parse_channel_and_bitrate("PCAN_USBBUS2@500000").unwrap();
    assert_eq!(a, b);
    assert_eq!(a, (0x52, bitrate_to_btr0btr1(500000).unwrap()));
}
