use library::rgb::controller::{initial_state, step, RgbAction, RgbEvent};
use library::role::application::rgb::packet::{
    build_header, build_packet, check_device_reply, check_version_reply, client_name_request,
    controller_count, controller_count_request, controller_data_request, load_profile_request,
    protocol_version_request, reply_payload_size, update_leds_request, ReplyError, CMD_GET_CONTROLLER_DATA,
    MAX_PAYLOAD_SIZE, OPENRGB_DEFAULT_PORT,
};
use library::role::application::rgb::protocol::{
    choose_restore_profile, default_client_name, device_type_name, parse_device_payload, OpenRGBConfig, RgbColor,
};
use library::role::application::rgb::wire::PayloadError;

fn le16(v: u16) -> [u8; 2] {
    v.to_le_bytes()
}

fn payload(device_type: u32, name: &str, colors: &[(u8, u8, u8)]) -> Vec<u8> {
    let mut d = Vec::new();
    d.extend_from_slice(&0u32.to_le_bytes());
    d.extend_from_slice(&device_type.to_le_bytes());
    d.extend_from_slice(&le16(name.len() as u16 + 1));
    d.extend_from_slice(name.as_bytes());
    d.push(0);
    for _ in 0..5 {
        d.extend_from_slice(&le16(0));
    }
    d.extend_from_slice(&le16(0)); // modes
    d.extend_from_slice(&[0, 0, 0, 0]); // active mode
    d.extend_from_slice(&le16(0)); // zones
    d.extend_from_slice(&le16(0)); // leds
    d.extend_from_slice(&le16(colors.len() as u16));
    for &(r, g, b) in colors {
        d.extend_from_slice(&[r, g, b, 0]);
    }
    d
}

#[test]
fn device_payload_gives_name_type_and_colors() {
    let d = payload(2, "Ampere", &[(1, 2, 3), (250, 128, 0)]);
    let dev = parse_device_payload(7, &d).unwrap();
    assert_eq!(dev.index, 7);
    assert_eq!(dev.device_type, 2);
    assert_eq!(dev.name, "Ampere");
    assert_eq!(dev.num_leds, 2);
    assert_eq!(dev.initial_colors, vec![RgbColor::new(1, 2, 3), RgbColor::new(250, 128, 0)]);
}

#[test]
fn truncated_payloads_report_where_the_data_ended() {
    assert_eq!(parse_device_payload(0, &[]).unwrap_err(), PayloadError::EofU32);
    let mut d = payload(0, "x", &[(9, 9, 9)]);
    d.truncate(d.len() - 2);
    assert_eq!(parse_device_payload(0, &d).unwrap_err(), PayloadError::EofColors);
    let mut s = Vec::new();
    s.extend_from_slice(&0u32.to_le_bytes());
    s.extend_from_slice(&0u32.to_le_bytes());
    s.extend_from_slice(&le16(10));
    s.extend_from_slice(b"abc");
    assert_eq!(parse_device_payload(0, &s).unwrap_err(), PayloadError::EofString);
    assert_eq!(PayloadError::EofString.message(), "EOF String");
}

#[test]
fn legacy_payload_errors_are_text() {
    let d = payload(1, "Dimm", &[(5, 6, 7)]);
    let dev = library::rgb::protocol::parse_device_payload(3, &d).unwrap();
    assert_eq!(dev.name, "Dimm");
    assert_eq!(dev.initial_colors.len(), 1);
    assert_eq!(library::rgb::protocol::parse_device_payload(3, &[1, 2]).unwrap_err(), "EOF u32");
}

#[test]
fn device_type_names() {
    assert_eq!(device_type_name(0), "Motherboard");
    assert_eq!(device_type_name(2), "GPU");
}

#[test]
fn requests_are_header_plus_payload() {
    let h = build_header(5, CMD_GET_CONTROLLER_DATA, 4);
    assert_eq!(h, vec![b'O', b'R', b'G', b'B', 5, 0, 0, 0, 1, 0, 0, 0, 4, 0, 0, 0]);
    let p = build_packet(0, 50, &vec![1, 2, 3]);
    assert_eq!(&p[..4], b"ORGB");
    assert_eq!(&p[12..16], &[3, 0, 0, 0]);
    assert_eq!(&p[16..], &[1, 2, 3]);
    let v = protocol_version_request();
    assert_eq!(v.len(), 20);
    assert_eq!(&v[16..], &[1, 0, 0, 0]);
    let c = controller_count_request();
    assert_eq!(c.len(), 16);
    assert_eq!(&controller_data_request(9)[4..8], &[9, 0, 0, 0]);
    let n = client_name_request("app");
    assert_eq!(&n[16..], &[4, 0, b'a', b'p', b'p', 0]);
    let n2 = client_name_request("app\0");
    assert_eq!(&n2[16..], &[4, 0, b'a', b'p', b'p', 0]);
    let l = load_profile_request("default");
    assert_eq!(&l[4..8], &[0xff, 0xff, 0xff, 0xff]);
    assert_eq!(&l[8..12], &[150, 0, 0, 0]);
    assert_eq!(&l[16..], b"\x07\x00default");
}

#[test]
fn led_update_request_carries_every_color() {
    let p = update_leds_request(2, &vec![RgbColor::new(1, 2, 3), RgbColor::new(4, 5, 6)]);
    assert_eq!(&p[..4], b"ORGB");
    assert_eq!(&p[4..8], &[2, 0, 0, 0]);
    let payload = &p[16..];
    assert_eq!(u32::from_le_bytes(payload[..4].try_into().unwrap()) as usize, payload.len());
    assert!(payload.ends_with(&[1, 2, 3, 0, 4, 5, 6, 0]));
}

#[test]
fn replies_are_checked() {
    let ok = build_header(0, 40, 4);
    assert_eq!(reply_payload_size(&ok), 4);
    assert_eq!(check_version_reply(&ok), Ok(4));
    let mut bad = ok.clone();
    bad[0] = b'X';
    assert_eq!(check_version_reply(&bad), Err(ReplyError::InvalidMagic));
    let big = build_header(0, 1, MAX_PAYLOAD_SIZE + 1);
    assert_eq!(check_device_reply(&big), Err(ReplyError::PayloadTooLarge));
    assert_eq!(check_device_reply(&build_header(0, 1, MAX_PAYLOAD_SIZE)), Ok(MAX_PAYLOAD_SIZE));
    assert_eq!(controller_count(4, &[3, 0, 0, 0]), 3);
    assert_eq!(controller_count(2, &[3, 0]), 0);
}

#[test]
fn client_name_drops_exe_suffix() {
    assert_eq!(default_client_name(Some("tool.exe")), "tool");
    assert_eq!(default_client_name(Some("tool")), "tool");
    assert_eq!(default_client_name(None), "rApp");
    let c = OpenRGBConfig::for_executable(Some("saver.exe"));
    assert_eq!(c.server_host, "127.0.0.1");
    assert_eq!(c.server_port, OPENRGB_DEFAULT_PORT);
    assert_eq!(c.client_name, "saver");
    assert_eq!(c.connection_timeout_ms, 500);
    assert_eq!(c.connection_timeout(), std::time::Duration::from_millis(500));
}

#[test]
fn restore_profile_preference_order() {
    let entries = vec![("notes.txt".to_string(), true), ("gaming.orp".to_string(), true), ("z.orp".to_string(), true)];
    assert_eq!(choose_restore_profile(Some("mine".to_string()), false, true, true, true, &entries), Some("mine".to_string()));
    assert_eq!(choose_restore_profile(Some(String::new()), false, true, true, true, &entries), None);
    assert_eq!(choose_restore_profile(None, true, false, true, true, &entries), Some("restore".to_string()));
    assert_eq!(choose_restore_profile(None, true, false, false, false, &entries), Some("gaming".to_string()));
    let dirs = vec![(".orp".to_string(), true), ("d.orp".to_string(), false)];
    assert_eq!(choose_restore_profile(None, true, false, false, false, &dirs), None);
}

#[test]
fn flash_fades_back_to_the_ambient_color() {
    let mut s = initial_state();
    let _ = step(&mut s, RgbEvent::Connected);
    let blue = RgbColor::new(0, 0, 255);
    let _ = step(&mut s, RgbEvent::SetColor(blue));
    let white = RgbColor::new(255, 255, 255);
    let _ = step(&mut s, RgbEvent::Flash { color: white, duration_ms: 300, now_ms: 1000 });
    match step(&mut s, RgbEvent::Timeout { now_ms: 1100 }) {
        RgbAction::Fade { from, to, .. } => {
            assert_eq!(from, white);
            assert_eq!(to, blue);
        }
        other => panic!("unexpected {:?}", other),
    }
    let after = step(&mut s, RgbEvent::Timeout { now_ms: 1400 });
    assert_eq!(after, RgbAction::WriteAll { color: blue, report_failure: true });
    assert!(s.flash.is_none());
    assert_eq!(step(&mut s, RgbEvent::Disconnected), RgbAction::RestoreAndStop);
}

#[test]
fn device_names_with_invalid_utf8_are_replaced() {
    let mut d = Vec::new();
    d.extend_from_slice(&0u32.to_le_bytes());
    d.extend_from_slice(&4u32.to_le_bytes());
    d.extend_from_slice(&3u16.to_le_bytes());
    d.extend_from_slice(&[b'A', 0xff, 0]);
    for _ in 0..5 {
        d.extend_from_slice(&0u16.to_le_bytes());
    }
    d.extend_from_slice(&0u16.to_le_bytes());
    d.extend_from_slice(&[0, 0, 0, 0]);
    d.extend_from_slice(&0u16.to_le_bytes());
    d.extend_from_slice(&0u16.to_le_bytes());
    d.extend_from_slice(&0u16.to_le_bytes());
    let dev = parse_device_payload(0, &d).unwrap();
    assert_eq!(dev.name, "A\u{FFFD}");
    assert!(dev.initial_colors.is_empty());
}

#[test]
fn reconnect_sends_the_ambient_color_again() {
    let mut s = initial_state();
    let _ = step(&mut s, RgbEvent::Connected);
    let green = RgbColor::new(0, 255, 0);
    assert_eq!(step(&mut s, RgbEvent::SetColor(green)), RgbAction::WriteAll { color: green, report_failure: true });
    assert_eq!(step(&mut s, RgbEvent::WriteFailed), RgbAction::Nothing);
    assert!(!s.connected);
    assert_eq!(step(&mut s, RgbEvent::SetColor(green)), RgbAction::Nothing);
    assert_eq!(step(&mut s, RgbEvent::Connected), RgbAction::WriteAll { color: green, report_failure: false });
    let mut idle = initial_state();
    assert_eq!(step(&mut idle, RgbEvent::Disconnected), RgbAction::Stop);
}

#[test]
fn trailing_bytes_and_both_readers_give_the_same_device() {
    let d = payload(2, "Ampere", &[(1, 2, 3), (250, 128, 0)]);
    let dev = parse_device_payload(7, &d).unwrap();
    let mut longer = d.clone();
    longer.extend_from_slice(&[9, 9, 9, 9, 9]);
    let again = parse_device_payload(7, &longer).unwrap();
    assert_eq!((again.name.clone(), again.device_type, again.num_leds), (dev.name.clone(), dev.device_type, dev.num_leds));
    assert_eq!(again.initial_colors, dev.initial_colors);
    let legacy = library::rgb::protocol::parse_device_payload(7, &longer).unwrap();
    assert_eq!((legacy.index, legacy.name.clone(), legacy.device_type, legacy.num_leds), (dev.index, dev.name, dev.device_type, dev.num_leds));
    assert_eq!(legacy.initial_colors, dev.initial_colors);
    assert!(library::rgb::protocol::parse_device_payload(7, &d[..d.len() - 1]).is_err());
    assert!(parse_device_payload(7, &d[..d.len() - 1]).is_err());
}
