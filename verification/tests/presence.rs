use xilers::ClientGroup;
use xilers::ClientGroupWs;
use xilers::DeviceSpec;
use xilers::HubEvent;
use xilers::Outbound;
use xilers::Uid;

#[test]
fn connect_notifies_the_whole_room_in_join_order() {
    let mut hub = ClientGroupWs::new();
    let g = Uid::new(100);
    let d1 = Uid::new(1);
    let d2 = Uid::new(2);
    let out1 = hub.connect(d1, g, 11);
    assert_eq!(out1, vec![Outbound { device: 1, handle: 11 }]);
    let out2 = hub.connect(d2, g, 22);
    assert_eq!(
        out2,
        vec![
            Outbound { device: 1, handle: 11 },
            Outbound { device: 2, handle: 22 },
        ]
    );
}

#[test]
fn per_room_event_order_is_preserved_by_a_run() {
    let mut hub = ClientGroupWs::new();
    let g = Uid::new(100);
    let d1 = Uid::new(1);
    let d2 = Uid::new(2);
    let events = vec![
        HubEvent::Connect { self_id: d1, room_id: g, handle: 11 },
        HubEvent::Connect { self_id: d2, room_id: g, handle: 22 },
    ];
    let out = hub.run_events(&events);
    // d1's own join signal precedes the signal d2's join sends to d1.
    assert_eq!(
        out,
        vec![
            Outbound { device: 1, handle: 11 },
            Outbound { device: 1, handle: 11 },
            Outbound { device: 2, handle: 22 },
        ]
    );
}

#[test]
fn a_run_mixes_joins_broadcasts_and_leaves() {
    let mut hub = ClientGroupWs::new();
    let g = Uid::new(100);
    let d1 = Uid::new(1);
    let d2 = Uid::new(2);
    let events = vec![
        HubEvent::Connect { self_id: d1, room_id: g, handle: 11 },
        HubEvent::Connect { self_id: d2, room_id: g, handle: 22 },
        HubEvent::Broadcast { room_id: g },
        HubEvent::Disconnect { self_id: d1, room_id: g },
        HubEvent::Broadcast { room_id: g },
    ];
    let out = hub.run_events(&events);
    assert_eq!(
        out,
        vec![
            // d1's own join signal.
            Outbound { device: 1, handle: 11 },
            // d2's join notifies d1 and d2, in join order.
            Outbound { device: 1, handle: 11 },
            Outbound { device: 2, handle: 22 },
            // The broadcast reaches both; the disconnect itself sends
            // nothing; the second broadcast reaches only d2.
            Outbound { device: 1, handle: 11 },
            Outbound { device: 2, handle: 22 },
            Outbound { device: 2, handle: 22 },
        ]
    );
}

#[test]
fn disconnect_of_unknown_device_is_a_no_op() {
    let mut hub = ClientGroupWs::new();
    let g = Uid::new(100);
    let d1 = Uid::new(1);
    let stranger = Uid::new(9);
    hub.connect(d1, g, 11);
    hub.disconnect(stranger, g);
    // The room and session state are untouched: a broadcast still reaches d1.
    let out = hub.broadcast(g);
    assert_eq!(out, vec![Outbound { device: 1, handle: 11 }]);
}

#[test]
fn disconnect_sends_no_notification() {
    let mut hub = ClientGroupWs::new();
    let g = Uid::new(100);
    let d1 = Uid::new(1);
    let d2 = Uid::new(2);
    hub.connect(d1, g, 11);
    hub.connect(d2, g, 22);
    let events = vec![HubEvent::Disconnect { self_id: d2, room_id: g }];
    let out = hub.run_events(&events);
    assert!(out.is_empty());
}

#[test]
fn emptied_room_is_collected_and_a_fresh_one_forms() {
    let mut hub = ClientGroupWs::new();
    let g = Uid::new(100);
    let d1 = Uid::new(1);
    let d2 = Uid::new(2);
    hub.connect(d1, g, 11);
    hub.disconnect(d1, g);
    // The room is gone: a broadcast reaches nobody.
    assert!(hub.broadcast(g).is_empty());
    // A later connect makes a fresh room holding only the newcomer.
    let out = hub.connect(d2, g, 22);
    assert_eq!(out, vec![Outbound { device: 2, handle: 22 }]);
}

#[test]
fn member_left_in_room_after_peer_disconnects_still_hears_broadcasts() {
    let mut hub = ClientGroupWs::new();
    let g = Uid::new(100);
    let d1 = Uid::new(1);
    let d2 = Uid::new(2);
    hub.connect(d1, g, 11);
    hub.connect(d2, g, 22);
    hub.disconnect(d1, g);
    let out = hub.broadcast(g);
    assert_eq!(out, vec![Outbound { device: 2, handle: 22 }]);
}

#[test]
fn broadcast_to_unknown_room_reaches_nobody() {
    let hub = ClientGroupWs::new();
    assert!(hub.broadcast(Uid::new(5)).is_empty());
}

#[test]
fn rooms_are_independent() {
    let mut hub = ClientGroupWs::new();
    let g1 = Uid::new(100);
    let g2 = Uid::new(200);
    let d1 = Uid::new(1);
    let d2 = Uid::new(2);
    hub.connect(d1, g1, 11);
    let out = hub.connect(d2, g2, 22);
    // d2's join notifies only its own room.
    assert_eq!(out, vec![Outbound { device: 2, handle: 22 }]);
    assert_eq!(hub.broadcast(g1), vec![Outbound { device: 1, handle: 11 }]);
}

#[test]
fn end_to_end_scenario() {
    // Device A creates group G and registers its descriptor.
    let mut registry = ClientGroup::new();
    let g1 = registry.create_group();
    let d_a = Uid::new(0xa);
    let d_b = Uid::new(0xb);
    let spec_a = DeviceSpec {
        ip: "".to_string(),
        os: "linux".to_string(),
        os_version: "6.1".to_string(),
        listen_port: None,
    };
    assert!(registry.upsert_spec(g1, d_a, spec_a.clone()));

    // A is connected to the presence hub; then B connects.
    let mut hub = ClientGroupWs::new();
    hub.connect(d_a, g1, 1);
    let out = hub.connect(d_b, g1, 2);
    // A receives exactly one membership-changed signal from B's join.
    let to_a = out.iter().filter(|o| o.device == d_a.value).count();
    assert_eq!(to_a, 1);

    // B disconnects: no further signal reaches A.
    hub.disconnect(d_b, g1);

    // A's descriptor is still registered, unchanged.
    assert_eq!(registry.get_spec(g1, d_a), Ok(&spec_a));
}
