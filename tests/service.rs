use pocket_relay_qos::service::{QRequestData, QService};

#[test]
fn tokens_are_never_the_sentinel() {
    let mut service = QService::new();
    let mut last = 0u32;
    for i in 0..200u32 {
        let t = if i % 2 == 0 {
            service.create_request_data(2, 1000, 1).unwrap()
        } else {
            service.create_firewall_data().unwrap()
        };
        assert!(!(t.0 == 1 && t.1 == 0));
        assert!(t.0 >= 2);
        assert!(t.0 > last);
        last = t.0;
    }
}

#[test]
fn request_data_is_kept() {
    let mut service = QService::new();
    let a = service.create_request_data(2, 7777, 3).unwrap();
    let b = service.create_request_data(2, 8888, 4).unwrap();
    let _ = service.create_firewall_data().unwrap();
    let _ = service.take_firewall_rx(a.0, a.1);
    let want_a = QRequestData { q_type: 2, client_port: 7777, version: 3 };
    assert_eq!(service.get_request_data(a.0, a.1), Some(want_a));
    assert_eq!(service.get_request_data(a.0, a.1), Some(want_a));
    assert_eq!(
        service.get_request_data(b.0, b.1),
        Some(QRequestData { q_type: 2, client_port: 8888, version: 4 })
    );
    assert_eq!(service.get_request_data(a.0, a.1.wrapping_add(1)), None);
    assert_eq!(service.get_request_data(1, 0), None);
}

#[test]
fn receiver_is_taken_once() {
    let mut service = QService::new();
    let t = service.create_firewall_data().unwrap();
    let rx = service.take_firewall_rx(t.0, t.1);
    assert!(rx.is_some());
    drop(rx);
    assert!(service.take_firewall_rx(t.0, t.1).is_none());
    assert!(service.take_firewall_rx(t.0, t.1).is_none());
    assert!(service.get_firewall_tx(t.0, t.1).is_some());
}

#[test]
fn firewall_lookups_need_the_full_token() {
    let mut service = QService::new();
    let t = service.create_firewall_data().unwrap();
    assert!(service.get_firewall_tx(t.0, t.1).is_some());
    assert!(service.get_firewall_tx(t.0, t.1.wrapping_add(1)).is_none());
    assert!(service.take_firewall_rx(t.0, t.1.wrapping_add(1)).is_none());
    assert!(service.take_firewall_rx(t.0 + 1, t.1).is_none());
    let q = service.create_request_data(2, 1, 1).unwrap();
    assert!(service.get_firewall_tx(q.0, q.1).is_none());
    assert!(service.take_firewall_rx(t.0, t.1).is_some());
}

#[test]
fn sender_and_receiver_share_a_channel() {
    let mut service = QService::new();
    let t = service.create_firewall_data().unwrap();
    let tx = service.get_firewall_tx(t.0, t.1).unwrap();
    let mut rx = service.take_firewall_rx(t.0, t.1).unwrap();
    tx.send(pocket_relay_qos::peer::PeerAddr::V4 { ip: 9, port: 10 }).unwrap();
    assert_eq!(rx.try_recv().unwrap(), pocket_relay_qos::peer::PeerAddr::V4 { ip: 9, port: 10 });
}

#[test]
fn fresh_store_can_allocate() {
    let service = QService::new();
    assert!(service.can_allocate());
}
