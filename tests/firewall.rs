use pocket_relay_qos::firewall::{
    handle_firewall_packet, route_firewall_packet, FireTypeCollector, FirewallError,
    FirewallRequest,
};
use pocket_relay_qos::peer::PeerAddr;
use pocket_relay_qos::service::QService;

fn token_bytes(id: u32, secret: u32) -> Vec<u8> {
    let mut v = id.to_be_bytes().to_vec();
    v.extend_from_slice(&secret.to_be_bytes());
    v
}

#[test]
fn firewall_request_from_buffer() {
    let mut buf = token_bytes(0x0102_0304, 0x0a0b_0c0d);
    buf.push(0xff);
    let r = FirewallRequest::from_buffer(&mut buf);
    assert_eq!(r.request_id, 0x0102_0304);
    assert_eq!(r.request_secret, 0x0a0b_0c0d);
    assert_eq!(buf, vec![0xff]);
}

#[test]
fn unallocated_token_is_dropped() {
    let mut service = QService::new();
    let known = service.create_firewall_data().unwrap();
    let source = PeerAddr::V4 { ip: 0x0102_0304, port: 9 };
    let r = handle_firewall_packet(&service, token_bytes(known.0 + 1, 5), source);
    assert_eq!(r, Err(FirewallError::UnknownToken));
    let mut rx = service.take_firewall_rx(known.0, known.1).unwrap();
    assert!(rx.try_recv().is_err());
    assert!(service.can_allocate());
}

#[test]
fn short_firewall_packet_is_malformed() {
    let service = QService::new();
    let source = PeerAddr::V4 { ip: 1, port: 9 };
    assert_eq!(handle_firewall_packet(&service, vec![0; 7], source), Err(FirewallError::MalformedPacket));
}

#[test]
fn firewall_packet_forwards_sender() {
    let mut service = QService::new();
    let t = service.create_firewall_data().unwrap();
    let source = PeerAddr::V4 { ip: 0x0102_0304, port: 9 };
    let other = PeerAddr::V6 { ip: 7, port: 10 };
    assert_eq!(handle_firewall_packet(&service, token_bytes(t.0, t.1), source), Ok(true));
    assert_eq!(handle_firewall_packet(&service, token_bytes(t.0, t.1), other), Ok(true));
    let mut rx = service.take_firewall_rx(t.0, t.1).unwrap();
    assert_eq!(rx.try_recv().unwrap(), source);
    assert_eq!(rx.try_recv().unwrap(), other);
    drop(rx);
    assert_eq!(handle_firewall_packet(&service, token_bytes(t.0, t.1), source), Ok(false));
}

#[test]
fn collector_stops_at_five() {
    let mut c = FireTypeCollector::new();
    assert!(!c.is_done());
    for i in 0..4u16 {
        assert!(!c.observe(Some(PeerAddr::V4 { ip: 1, port: i })));
    }
    assert!(c.observe(Some(PeerAddr::V4 { ip: 1, port: 4 })));
    assert!(c.observe(Some(PeerAddr::V4 { ip: 1, port: 5 })));
    assert!(c.observe(None));
    let addrs = c.addrs();
    assert_eq!(addrs.len(), 5);
    for (i, a) in addrs.iter().enumerate() {
        assert_eq!(*a, PeerAddr::V4 { ip: 1, port: i as u16 });
    }
}

#[test]
fn collector_stops_when_channel_closes() {
    let mut c = FireTypeCollector::new();
    assert!(!c.observe(Some(PeerAddr::V4 { ip: 2, port: 1 })));
    assert!(c.observe(None));
    assert!(c.observe(Some(PeerAddr::V4 { ip: 2, port: 2 })));
    assert_eq!(c.addrs(), vec![PeerAddr::V4 { ip: 2, port: 1 }]);
}

#[test]
fn route_picks_the_token_channel() {
    let mut service = QService::new();
    let t1 = service.create_firewall_data().unwrap();
    let t2 = service.create_firewall_data().unwrap();
    let tx = route_firewall_packet(&service, token_bytes(t2.0, t2.1)).unwrap();
    tx.send(PeerAddr::V4 { ip: 3, port: 4 }).unwrap();
    let mut rx1 = service.take_firewall_rx(t1.0, t1.1).unwrap();
    let mut rx2 = service.take_firewall_rx(t2.0, t2.1).unwrap();
    assert!(rx1.try_recv().is_err());
    assert_eq!(rx2.try_recv().unwrap(), PeerAddr::V4 { ip: 3, port: 4 });
    assert!(matches!(
        route_firewall_packet(&service, token_bytes(t2.0 + 5, t2.1)),
        Err(FirewallError::UnknownToken)
    ));
    assert!(matches!(route_firewall_packet(&service, vec![1, 2, 3]), Err(FirewallError::MalformedPacket)));
}
