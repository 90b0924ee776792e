use p2p_app::groups::{
    canonical_group_name, group_id_from_topic, group_topic, is_group_topic, stable_group_id,
    GROUP_TOPIC_PREFIX,
};

#[test]
fn topics_round_trip() {
    assert_eq!(GROUP_TOPIC_PREFIX, "group:");
    let t = group_topic("abc123");
    assert_eq!(t, "group:abc123");
    assert!(is_group_topic(&t));
    assert_eq!(group_id_from_topic(&t), Some("abc123"));
    assert!(!is_group_topic("chat"));
    assert!(!is_group_topic("group"));
    assert_eq!(group_id_from_topic("chat"), None);
    assert_eq!(group_id_from_topic("group:"), Some(""));
    assert_eq!(group_id_from_topic("group:é"), Some("é"));
}

#[test]
fn canonical_names() {
    assert_eq!(canonical_group_name("  Rust   Chat "), "rust chat");
    assert_eq!(canonical_group_name("rust\tchat\n"), "rust chat");
    assert_eq!(canonical_group_name(""), "");
    assert_eq!(canonical_group_name("   "), "");
    assert_eq!(canonical_group_name("ÄBC"), "äbc");
}

#[test]
fn stable_ids_follow_the_canonical_name() {
    assert_eq!(stable_group_id(""), "cbf29ce484222325");
    assert_eq!(stable_group_id("a"), "af63bd4c8601b840");
    assert_eq!(stable_group_id("rust chat"), "11736fa6c222c72f");
    assert_eq!(stable_group_id("  RUST  chat"), stable_group_id("rust chat"));
    assert_ne!(stable_group_id("rust chat"), stable_group_id("rustchat"));
    assert_eq!(stable_group_id("x").len(), 16);
}
