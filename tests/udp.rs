use pocket_relay_qos::peer::PeerAddr;
use pocket_relay_qos::service::QService;
use pocket_relay_qos::udp::{
    handle_qos_packet, is_local_ipv4, wants_public_address, QosError, QosHeader, QosRequestV1,
    QosRequestV2, QosResponseV1, QosResponseV2, QOS_UBPS,
};

fn header_bytes(u1: u32, id: u32, secret: u32, probe: u32) -> Vec<u8> {
    let mut v = Vec::new();
    for x in [u1, id, secret, probe] {
        v.extend_from_slice(&x.to_be_bytes());
    }
    v
}

#[test]
fn bytes() {
    let header = QosHeader { u1: 2, request_id: 1, request_secret: 0, probe_number: 0 };
    let response = QosResponseV1 { header, timestamp: 0, ip: 1987012967u32, port: 0 };
    let mut out = Vec::new();
    response.write(&mut out);
    assert_eq!(&out[20..24], &1987012967u32.to_be_bytes());
    assert_eq!(&out[20..24], &[118u8, 111, 105, 103]);
    assert_eq!(-2146697216i32 as u32, 2148270080u32);
}

#[test]
fn header_round_trip() {
    let h = QosHeader { u1: 0x0002_0003, request_id: 42, request_secret: 0xdead_beef, probe_number: 7 };
    let mut out = Vec::new();
    h.write(&mut out);
    assert_eq!(out.len(), 16);
    assert_eq!(out, header_bytes(0x0002_0003, 42, 0xdead_beef, 7));
    out.extend_from_slice(&[9, 9]);
    let back = QosHeader::from_buffer(&mut out);
    assert_eq!(back, h);
    assert_eq!(out, vec![9, 9]);
}

#[test]
fn header_is_big_endian() {
    let mut buf = vec![0, 0, 0, 5, 0, 0, 0, 1, 0, 0, 0, 0, 1, 2, 3, 4];
    let h = QosHeader::from_buffer(&mut buf);
    assert_eq!(h.u1, 5);
    assert!(h.is_address_probe());
    assert_eq!(h.probe_number, 0x0102_0304);
    assert!(buf.is_empty());
}

#[test]
fn request_bodies() {
    let mut v1 = vec![0, 0, 0, 0x64, 7];
    let r1 = QosRequestV1::from_buffer(&mut v1);
    assert_eq!(r1.timestamp, 0x64);
    assert_eq!(v1, vec![7]);

    let mut v2 = vec![0, 0, 0, 10, 1, 2, 3];
    let r2 = QosRequestV2::from_buffer(&mut v2);
    assert_eq!(r2.probe_count, 10);
    assert_eq!(r2.payload, vec![1, 2, 3]);
    assert!(v2.is_empty());
}

#[test]
fn response_v2_layout() {
    let header = QosHeader { u1: 1, request_id: 2, request_secret: 3, probe_number: 4 };
    let response = QosResponseV2 {
        header,
        probe_count: 0x0102_0304,
        ubps: QOS_UBPS,
        port: 0x1234,
        payload: vec![0xaa; 5],
    };
    let mut out = Vec::new();
    response.write(&mut out);
    assert_eq!(out.len(), 16 + 4 + 4 + 2 + 5);
    assert_eq!(&out[16..20], &[4, 3, 2, 1]);
    assert_eq!(u32::from_le_bytes([out[16], out[17], out[18], out[19]]), 0x0102_0304);
    assert_eq!(&out[20..24], &[0x00, 0x5b, 0x8d, 0x80]);
    assert_eq!(&out[24..26], &[0x12, 0x34]);
    assert_eq!(&out[26..], &[0xaa; 5]);
}

#[test]
fn address_probe_scenario() {
    let service = QService::new();
    let mut packet = header_bytes(2, 1, 0, 7);
    packet.extend_from_slice(&0x0000_0064u32.to_be_bytes());
    let source = PeerAddr::V4 { ip: 0xc0a8_0102, port: 3659 };
    let out = handle_qos_packet(&service, packet.clone(), source, None).unwrap();
    assert_eq!(out.len(), 30);
    assert_eq!(&out[0..16], &packet[0..16]);
    assert_eq!(&out[16..20], &[0, 0, 0, 0x64]);
    assert_eq!(&out[20..24], &[192, 168, 1, 2]);
    assert_eq!(&out[24..26], &3659u16.to_be_bytes());
    assert_eq!(&out[26..30], &[0, 0, 0, 0]);
}

#[test]
fn address_probe_reports_resolved_address() {
    let service = QService::new();
    let mut packet = header_bytes(2, 1, 0, 0);
    packet.extend_from_slice(&[0, 0, 1, 0]);
    let source = PeerAddr::V4 { ip: 0x7f00_0001, port: 5000 };
    let out = handle_qos_packet(&service, packet, source, Some(0x0102_0304)).unwrap();
    assert_eq!(&out[20..24], &[1, 2, 3, 4]);
    assert_eq!(&out[24..26], &5000u16.to_be_bytes());
}

#[test]
fn latency_probe_scenario() {
    let mut service = QService::new();
    let (id, secret) = service.create_request_data(2, 7777, 1).unwrap();
    let mut packet = header_bytes(3, id, secret, 0);
    packet.extend_from_slice(&10u32.to_be_bytes());
    let payload: Vec<u8> = (0..50u8).collect();
    packet.extend_from_slice(&payload);
    let source = PeerAddr::V4 { ip: 0x0a00_0005, port: 40000 };
    let out = handle_qos_packet(&service, packet.clone(), source, None).unwrap();
    assert_eq!(out.len(), 16 + 4 + 4 + 2 + 44);
    assert_eq!(&out[0..16], &packet[0..16]);
    assert_eq!(&out[16..20], &10u32.to_le_bytes());
    assert_eq!(&out[20..24], &0x005B_8D80u32.to_be_bytes());
    assert_eq!(&out[24..26], &7777u16.to_be_bytes());
    assert_eq!(&out[26..], &payload[..44]);
}

#[test]
fn short_packet_is_malformed() {
    let service = QService::new();
    let source = PeerAddr::V4 { ip: 1, port: 1 };
    assert_eq!(handle_qos_packet(&service, vec![0; 15], source, None), Err(QosError::MalformedPacket));
    assert_eq!(handle_qos_packet(&service, Vec::new(), source, None), Err(QosError::MalformedPacket));
    let short_v1 = header_bytes(0, 1, 0, 0);
    assert_eq!(handle_qos_packet(&service, short_v1, source, None), Err(QosError::MalformedPacket));
}

#[test]
fn latency_probe_without_trailer_is_malformed() {
    let mut service = QService::new();
    let (id, secret) = service.create_request_data(2, 7777, 1).unwrap();
    let mut packet = header_bytes(0, id, secret, 0);
    packet.extend_from_slice(&[0, 0, 0, 1, 9, 9, 9, 9, 9]);
    let source = PeerAddr::V4 { ip: 1, port: 1 };
    assert_eq!(handle_qos_packet(&service, packet.clone(), source, None), Err(QosError::MalformedPacket));
    packet.push(9);
    let out = handle_qos_packet(&service, packet, source, None).unwrap();
    assert_eq!(out.len(), 26);
}

#[test]
fn ipv6_sender_is_refused() {
    let service = QService::new();
    let mut packet = header_bytes(0, 1, 0, 0);
    packet.extend_from_slice(&[0, 0, 0, 1]);
    let source = PeerAddr::V6 { ip: 1, port: 80 };
    assert_eq!(handle_qos_packet(&service, packet, source, None), Err(QosError::Ipv6Sender));
}

#[test]
fn latency_probe_for_unknown_token_is_refused() {
    let mut service = QService::new();
    let (id, secret) = service.create_request_data(2, 7777, 1).unwrap();
    let source = PeerAddr::V4 { ip: 1, port: 1 };
    let mut packet = header_bytes(0, id, secret.wrapping_add(1), 0);
    packet.extend_from_slice(&[0; 20]);
    assert_eq!(handle_qos_packet(&service, packet, source, None), Err(QosError::UnknownToken));
    let mut never = header_bytes(0, id + 1, secret, 0);
    never.extend_from_slice(&[0; 20]);
    assert_eq!(handle_qos_packet(&service, never, source, None), Err(QosError::UnknownToken));
}

#[test]
fn local_address_detection() {
    assert!(is_local_ipv4(0x7f00_0001));
    assert!(is_local_ipv4(0x0a01_0203));
    assert!(is_local_ipv4(0xac10_0001));
    assert!(is_local_ipv4(0xac1f_ffff));
    assert!(!is_local_ipv4(0xac20_0001));
    assert!(is_local_ipv4(0xc0a8_0001));
    assert!(!is_local_ipv4(0xc0a9_0001));
    assert!(!is_local_ipv4(0x0808_0808));
    assert!(wants_public_address(PeerAddr::V4 { ip: 0xc0a8_0001, port: 1 }, true));
    assert!(!wants_public_address(PeerAddr::V4 { ip: 0xc0a8_0001, port: 1 }, false));
    assert!(!wants_public_address(PeerAddr::V4 { ip: 0x0808_0808, port: 1 }, true));
    assert!(!wants_public_address(PeerAddr::V6 { ip: 1, port: 1 }, true));
}
