use runner::elephant::{
    activation_finished, encode_request, payload_kind, response_event, response_header,
    subscription_event, Event, FuzzyInfo, Item, Payload, PayloadKind, REQ_QUERY, REQ_STATE,
};

#[test]
fn request_frame_layout() {
    let f = encode_request(REQ_STATE, b"{}");
    assert_eq!(f, vec![4, 1, 0, 0, 0, 2, b'{', b'}']);
    let payload = vec![7u8; 0x1_0203];
    let f = encode_request(REQ_QUERY, &payload);
    assert_eq!(&f[..6], &[0, 1, 0, 1, 2, 3]);
    assert_eq!(&f[6..], &payload[..]);
    assert_eq!(encode_request(9, &[]), vec![9, 1, 0, 0, 0, 0]);
}

#[test]
fn response_header_reads_big_endian() {
    assert_eq!(response_header(&[254, 0, 0, 1, 0]), (254, 256));
    assert_eq!(response_header(&[0, 0xff, 0xff, 0xff, 0xff]), (0, u32::MAX));
    // What a request frame writes, a header reads back.
    let f = encode_request(2, &[1, 2, 3]);
    assert_eq!(response_header(&f[1..6]).1, 3);
}

#[test]
fn responses_to_events() {
    assert_eq!(payload_kind(0), PayloadKind::Query);
    assert_eq!(payload_kind(1), PayloadKind::Query);
    assert_eq!(payload_kind(3), PayloadKind::State);
    assert_eq!(payload_kind(2), PayloadKind::Unread);
    let item = || Item {
        identifier: "id".into(),
        ..Default::default()
    };
    match response_event(0, Payload::Query { query: "q".into(), item: Some(item()), qid: 3 }) {
        Some(Event::Item { qid, query, item }) => {
            assert_eq!(qid, 3);
            assert_eq!(query, "q");
            assert_eq!(item.identifier, "id");
        }
        _ => panic!("expected an item"),
    }
    assert!(matches!(
        response_event(1, Payload::Query { query: "q".into(), item: Some(item()), qid: 3 }),
        Some(Event::Update { .. })
    ));
    assert!(response_event(0, Payload::Query { query: "q".into(), item: None, qid: 3 }).is_none());
    assert!(response_event(0, Payload::Malformed).is_none());
    assert!(matches!(
        response_event(3, Payload::State { provider: "bluetooth".into(), actions: vec!["find".into()] }),
        Some(Event::State { .. })
    ));
    assert!(response_event(3, Payload::Malformed).is_none());
    assert!(matches!(response_event(254, Payload::Unread), Some(Event::NoResults)));
    assert!(matches!(response_event(255, Payload::Unread), Some(Event::Done)));
    assert!(response_event(2, Payload::Unread).is_none());
    assert!(response_event(7, Payload::Unread).is_none());
}

#[test]
fn subscriptions_and_activations() {
    assert!(matches!(
        subscription_event(0, Some("menus:wifi".into())),
        Some(Event::Subscription(v)) if v == "menus:wifi"
    ));
    assert!(subscription_event(0, None).is_none());
    assert!(subscription_event(1, Some("x".into())).is_none());
    assert!(activation_finished(2));
    assert!(!activation_finished(0));
}

#[test]
fn item_clone_and_default() {
    let d = Item::default();
    assert!(d.identifier.is_empty() && d.actions.is_empty() && d.fuzzyinfo.is_none());
    let it = Item {
        identifier: "a".into(),
        actions: vec!["x".into(), "y".into()],
        ..Default::default()
    };
    let f = FuzzyInfo::default();
    assert!(f.field.is_empty() && f.positions.is_empty());
    let c = it.clone();
    assert_eq!(c.identifier, "a");
    assert_eq!(c.actions, vec!["x", "y"]);
}
