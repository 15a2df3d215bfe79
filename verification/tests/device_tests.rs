use kasa_gateway::codec::decode_frame;
use kasa_gateway::errors::DeviceError;
use kasa_gateway::relays::{config_equals, KasaMultiPlug, KasaPlug, RelayType};

fn plug(name: &str, room: &str, tags: Vec<String>) -> RelayType {
    RelayType::KasaPlug(KasaPlug::new(
        "192.168.0.10".to_string(),
        name.to_string(),
        room.to_string(),
        tags,
    ))
}

#[test]
fn new_plug_starts_off() {
    let p = KasaPlug::new(
        "192.168.0.10".to_string(),
        "Lamp".to_string(),
        "office".to_string(),
        vec!["light".to_string()],
    );
    assert_eq!(p.name, "Lamp");
    assert_eq!(p.room, "office");
    assert_eq!(p.ip, "192.168.0.10");
    assert!(!p.status);
}

#[test]
fn multiplug_children_pair_positionally() {
    let children = vec![("childA".to_string(), 1i64), ("childB".to_string(), 0i64)];
    let names = vec!["K1".to_string(), "K2".to_string()];
    let plugs = KasaMultiPlug::new(
        "192.168.0.218".to_string(),
        names,
        "Bedroom".to_string(),
        vec![],
        children,
    );
    assert_eq!(plugs.len(), 2);
    assert_eq!(plugs[0].id, "childA");
    assert_eq!(plugs[0].name, "K1");
    assert!(plugs[0].status);
    assert_eq!(plugs[1].id, "childB");
    assert_eq!(plugs[1].name, "K2");
    assert!(!plugs[1].status);
}

#[test]
fn test_multiplug_stuff() {
    let ip = "192.168.0.218".to_string();

    // The host reports two children; construction pairs them with the
    // two configured names positionally.
    let children = vec![("8006A1".to_string(), 0i64), ("8006A2".to_string(), 0i64)];
    let mut plugs: Vec<KasaMultiPlug> = KasaMultiPlug::new(
        ip,
        vec!["BedframeLight".to_string(), "BedroomLight".to_string()],
        "Bedroom".to_string(),
        vec![],
        children,
    );
    assert_eq!(plugs.len(), 2);

    for plug in &plugs {
        println!("{} \t {}", &plug.name, &plug.id);
    }

    let ack = b"{\"system\":{\"set_relay_state\":{\"err_code\":0}}}".to_vec();
    let first = plugs.remove(0);
    assert!(!first.status);
    let mut device = RelayType::KasaMultiPlug(first);
    assert!(device.apply_mutate_reply(true, &ack));
    assert!(device.status());
}

#[test]
fn multiplug_shorter_list_bounds_the_result() {
    let children = vec![
        ("c0".to_string(), 0i64),
        ("c1".to_string(), 1i64),
        ("c2".to_string(), 0i64),
    ];
    let names = vec!["only".to_string()];
    let plugs = KasaMultiPlug::new(
        "h".to_string(),
        names,
        "r".to_string(),
        vec![],
        children,
    );
    assert_eq!(plugs.len(), 1);
    assert_eq!(plugs[0].id, "c0");
}

#[test]
fn multiplug_from_host_reply_reads_the_report() {
    let payload = b"{\"system\":{\"get_sysinfo\":{\"children\":[{\"id\":\"c0\",\"state\":1},{\"id\":\"c1\",\"state\":0}]}}}"
        .to_vec();
    let plugs = KasaMultiPlug::from_host_reply(
        "h".to_string(),
        vec!["K1".to_string(), "K2".to_string()],
        "r".to_string(),
        vec![],
        &payload,
    )
    .expect("the report should parse");
    assert_eq!(plugs.len(), 2);
    assert_eq!(plugs[0].id, "c0");
    assert!(plugs[0].status);
    assert_eq!(plugs[1].id, "c1");
    assert!(!plugs[1].status);

    let garbage = b"nope".to_vec();
    assert!(KasaMultiPlug::from_host_reply(
        "h".to_string(),
        vec![],
        "r".to_string(),
        vec![],
        &garbage
    )
    .is_none());
}

#[test]
fn snapshot_reads_the_cache_only() {
    let device = plug("Lamp", "office", vec!["a".to_string(), "b".to_string()]);
    let snap = device.snapshot();
    assert_eq!(snap.name, "Lamp");
    assert_eq!(snap.room, "office");
    assert!(snap.id.is_none());
    assert!(!snap.status);
    assert_eq!(snap.tags, vec!["a".to_string(), "b".to_string()]);
}

#[test]
fn status_request_carries_the_sysinfo_command() {
    let device = plug("Lamp", "office", vec![]);
    let req = device.status_request();
    assert_eq!(req.ip, "192.168.0.10");
    let payload = decode_frame(&req.frame).expect("request frame should decode");
    assert_eq!(payload, b"{\"system\":{\"get_sysinfo\":{}}}".to_vec());
}

#[test]
fn mutate_request_scopes_to_the_child_id() {
    let device = RelayType::KasaMultiPlug(KasaMultiPlug {
        ip: "h".to_string(),
        id: "child7".to_string(),
        name: "K".to_string(),
        status: false,
        room: "r".to_string(),
        tags: vec![],
    });
    let req = device.mutate_request(true);
    let payload = decode_frame(&req.frame).expect("request frame should decode");
    assert_eq!(
        payload,
        b"{\"context\":{\"child_ids\":[\"child7\"]},\"system\":{\"set_relay_state\":{\"state\":1}}}"
            .to_vec()
    );
    let req = device.mutate_request(false);
    let payload = decode_frame(&req.frame).expect("request frame should decode");
    assert_eq!(
        payload,
        b"{\"context\":{\"child_ids\":[\"child7\"]},\"system\":{\"set_relay_state\":{\"state\":0}}}"
            .to_vec()
    );
}

#[test]
fn status_reply_refreshes_the_cache() {
    let mut device = plug("Lamp", "office", vec![]);
    let payload = b"{\"system\":{\"get_sysinfo\":{\"relay_state\":1}}}".to_vec();
    let fresh = device.apply_status_reply(&payload).expect("reply should parse");
    assert!(fresh);
    assert!(device.status());
    let payload = b"{\"system\":{\"get_sysinfo\":{\"relay_state\":0}}}".to_vec();
    let fresh = device.apply_status_reply(&payload).expect("reply should parse");
    assert!(!fresh);
    assert!(!device.status());
}

#[test]
fn garbled_status_reply_is_malformed_and_keeps_the_cache() {
    let mut device = plug("Lamp", "office", vec![]);
    let payload = b"not json at all".to_vec();
    let err = device.apply_status_reply(&payload).expect_err("reply should not parse");
    assert_eq!(err, DeviceError::Malformed);
    assert!(!device.status());
}

#[test]
fn multiplug_status_reply_finds_its_child() {
    let mut device = RelayType::KasaMultiPlug(KasaMultiPlug {
        ip: "h".to_string(),
        id: "c1".to_string(),
        name: "K".to_string(),
        status: false,
        room: "r".to_string(),
        tags: vec![],
    });
    let payload = b"{\"system\":{\"get_sysinfo\":{\"children\":[{\"id\":\"c0\",\"state\":0},{\"id\":\"c1\",\"state\":1}]}}}"
        .to_vec();
    let fresh = device.apply_status_reply(&payload).expect("reply should parse");
    assert!(fresh);
    assert!(device.status());
}

#[test]
fn multiplug_missing_child_is_not_found() {
    let mut device = RelayType::KasaMultiPlug(KasaMultiPlug {
        ip: "h".to_string(),
        id: "absent".to_string(),
        name: "K".to_string(),
        status: false,
        room: "r".to_string(),
        tags: vec![],
    });
    let payload = b"{\"system\":{\"get_sysinfo\":{\"children\":[{\"id\":\"c0\",\"state\":1}]}}}"
        .to_vec();
    let err = device.apply_status_reply(&payload).expect_err("child should be missing");
    assert_eq!(err, DeviceError::NotFound);
    assert!(!device.status());
}

#[test]
fn mutate_reply_moves_the_cache_only_when_acknowledged() {
    let mut device = plug("Lamp", "office", vec![]);
    let ack = b"{\"system\":{\"set_relay_state\":{\"err_code\":0}}}".to_vec();
    assert!(device.apply_mutate_reply(true, &ack));
    assert!(device.status());
    let garbage = b"{}".to_vec();
    assert!(!device.apply_mutate_reply(false, &garbage));
    assert!(device.status());
}

#[test]
fn config_equals_compares_by_value_regardless_of_order() {
    let a = vec![plug("A", "r1", vec![]), plug("B", "r2", vec![])];
    let b = vec![plug("B", "r2", vec![]), plug("A", "r1", vec![])];
    assert!(config_equals(&a, &b));

    let c = vec![plug("A", "r1", vec![]), plug("B", "other", vec![])];
    assert!(!config_equals(&a, &c));

    let shorter = vec![plug("A", "r1", vec![])];
    assert!(!config_equals(&a, &shorter));
}

#[test]
fn config_equals_sees_status_differences() {
    let mut on = KasaPlug::new("i".to_string(), "A".to_string(), "r".to_string(), vec![]);
    on.status = true;
    let a = vec![RelayType::KasaPlug(on)];
    let b = vec![plug("A", "r", vec![])];
    assert!(!config_equals(&a, &b));
}
