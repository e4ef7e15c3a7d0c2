use grapl_core::AttributionStep;
use grapl_core::IdentityError;
use grapl_core::NodeDescription;
use grapl_core::NodeProperty;
use grapl_core::Property;
use grapl_core::SessionStrategy;
use grapl_core::StaticStrategy;
use grapl_core::apply_session_id;
use grapl_core::attribute_static_mapping;
use grapl_core::get_static_node_key;
use grapl_core::primary_session_key;
use grapl_core::Strategy;
use grapl_core::session_for_attribution;
use grapl_core::sort_property_names;
use grapl_core::tenant_id_bytes;

fn process_node() -> NodeDescription {
    NodeDescription {
        properties: vec![
            (String::from("pid"), NodeProperty { property: Property::ImmutableUintProp(1234) }),
            (
                String::from("name"),
                NodeProperty { property: Property::ImmutableStrProp(String::from("svchost.exe")) },
            ),
        ],
        node_key: String::from("key-0"),
        node_type: String::from("Process"),
        id_strategy: vec![],
    }
}

#[test]
fn tenant_id_renders_big_endian() {
    assert_eq!(tenant_id_bytes(0), vec![0u8; 16]);
    let mut expected = vec![0u8; 16];
    expected[15] = 1;
    assert_eq!(tenant_id_bytes(1), expected);
    let mut expected = vec![0u8; 16];
    expected[0] = 0xab;
    assert_eq!(tenant_id_bytes(0xab << 120), expected);
}

#[test]
fn session_times_decide_creation() {
    let strategy = SessionStrategy {
        primary_key_properties: vec![],
        primary_key_requires_asset_id: false,
        create_time: 5,
        last_seen_time: 9,
    };
    let session = session_for_attribution(String::from("k"), &strategy).unwrap();
    assert!(session.is_creation);
    assert_eq!(session.timestamp, 5);
    assert_eq!(session.pseudo_key, "k");

    let strategy = SessionStrategy { create_time: 0, last_seen_time: 9, ..strategy };
    let session = session_for_attribution(String::from("k"), &strategy).unwrap();
    assert!(!session.is_creation);
    assert_eq!(session.timestamp, 9);

    let strategy = SessionStrategy { create_time: 0, last_seen_time: 0, ..strategy };
    assert!(matches!(
        session_for_attribution(String::from("k"), &strategy),
        Err(IdentityError::UnsupportedSessionTimes)
    ));
}

#[test]
fn session_primary_key_is_urn_values_and_node_key() {
    let node = process_node();
    let strategy = SessionStrategy {
        primary_key_properties: vec![String::from("pid"), String::from("name")],
        primary_key_requires_asset_id: false,
        create_time: 1,
        last_seen_time: 0,
    };
    let key = primary_session_key(0, &node, &strategy).unwrap();
    assert_eq!(
        key,
        "urn:uuid:00000000-0000-0000-0000-0000000000001234svchost.exekey-0"
    );
}

#[test]
fn session_primary_key_reports_the_missing_property() {
    let node = process_node();
    let strategy = SessionStrategy {
        primary_key_properties: vec![String::from("pid"), String::from("asset_id")],
        primary_key_requires_asset_id: false,
        create_time: 1,
        last_seen_time: 0,
    };
    match primary_session_key(0, &node, &strategy) {
        Err(IdentityError::MissingProperty(name)) => assert_eq!(name, "asset_id"),
        _ => panic!("a missing primary-key property must fail attribution"),
    }
}

#[test]
fn property_names_sort_lexicographically() {
    let names = vec![
        String::from("pid"),
        String::from("name"),
        String::from("arch"),
        String::from("name"),
    ];
    let sorted = sort_property_names(&names);
    assert_eq!(sorted, vec!["arch", "name", "name", "pid"]);
}

#[test]
fn static_node_key_is_the_digest_of_sorted_properties() {
    // digest input: "svchost.exe" (name sorts before pid), "1234", the node
    // type, then the sixteen tenant-id bytes
    let node = process_node();
    let strategy = StaticStrategy {
        primary_key_properties: vec![String::from("pid"), String::from("name")],
    };
    let key = get_static_node_key(1, &node, &strategy).unwrap();
    assert_eq!(key, "c9d40c0de6418a88edf7ff71b3b396acd4a6c420d219e00ad988dfc30a08f734");
}

#[test]
fn static_node_key_reports_the_missing_property() {
    let node = process_node();
    let strategy = StaticStrategy {
        primary_key_properties: vec![String::from("pid"), String::from("asset_id")],
    };
    match get_static_node_key(1, &node, &strategy) {
        Err(IdentityError::MissingProperty(name)) => assert_eq!(name, "asset_id"),
        _ => panic!("a missing primary-key property must fail attribution"),
    }
}

#[test]
fn static_attribution_replaces_only_the_node_key() {
    let node = process_node();
    let strategy = StaticStrategy { primary_key_properties: vec![String::from("pid")] };
    let attributed = attribute_static_mapping(1, node, &strategy).unwrap();
    assert_eq!(attributed.node_type, "Process");
    assert_eq!(attributed.properties.len(), 2);
    assert_ne!(attributed.node_key, "key-0");
    assert_eq!(attributed.node_key.len(), 64);
}

#[test]
fn dynamic_attribution_follows_the_first_strategy() {
    let mut node = process_node();
    node.id_strategy = vec![Strategy::Static(StaticStrategy {
        primary_key_properties: vec![String::from("pid"), String::from("name")],
    })];
    match grapl_core::prepare_attribution(1, node).unwrap() {
        AttributionStep::Completed(n) => assert_eq!(
            n.node_key,
            "c9d40c0de6418a88edf7ff71b3b396acd4a6c420d219e00ad988dfc30a08f734"
        ),
        _ => panic!("a static strategy completes without the session store"),
    }

    let mut node = process_node();
    node.id_strategy = vec![Strategy::Session(SessionStrategy {
        primary_key_properties: vec![String::from("pid")],
        primary_key_requires_asset_id: false,
        create_time: 44,
        last_seen_time: 0,
    })];
    match grapl_core::prepare_attribution(0, node).unwrap() {
        AttributionStep::NeedsSessionResolution(session, n) => {
            assert_eq!(
                session.pseudo_key,
                "urn:uuid:00000000-0000-0000-0000-0000000000001234key-0"
            );
            assert!(session.is_creation);
            assert_eq!(session.timestamp, 44);
            let resolved = apply_session_id(n, String::from("session-1"));
            assert_eq!(resolved.node_key, "session-1");
        },
        _ => panic!("a session strategy must go to the session store"),
    }
}

#[test]
fn session_id_binds_to_the_node() {
    let node = process_node();
    let attributed = apply_session_id(node, String::from("session-77"));
    assert_eq!(attributed.node_key, "session-77");
    assert_eq!(attributed.node_type, "Process");
}
