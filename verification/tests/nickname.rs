use p2p_app::api::{network_size_label, validate_nickname as api_validate};
use p2p_app::network::NetworkSize;
use p2p_app::nickname::{generate_self_nickname, nickname_or_fallback, validate_nickname};

#[test]
fn nickname_rules() {
    assert!(validate_nickname("valid-nick"));
    assert!(validate_nickname("Zoë-2"));
    assert!(validate_nickname("abcdefghijklmnopqrst"));
    assert!(!validate_nickname("abcdefghijklmnopqrstu"));
    // Twenty characters is the limit, whatever their UTF-8 width.
    assert!(validate_nickname("éééééééééééééééééééé"));
    assert!(validate_nickname("ééééééééééé"));
    assert!(!validate_nickname("ééééééééééééééééééééé"));
    assert!(!validate_nickname(""));
    assert!(!validate_nickname("a b"));
    assert!(!validate_nickname("a_b"));
    assert!(api_validate("ok-1".to_string()));
}

#[test]
fn generated_nicknames() {
    let n = generate_self_nickname();
    assert!(!n.is_empty());
    assert!(n.contains('-'));
    assert_eq!(nickname_or_fallback(None), "anonymous-peer");
    assert_eq!(nickname_or_fallback(Some("brave-otter".into())), "brave-otter");
}

#[test]
fn network_sizes() {
    assert_eq!(NetworkSize::from_whole_peer_count(0), NetworkSize::Small);
    assert_eq!(NetworkSize::from_whole_peer_count(3), NetworkSize::Small);
    assert_eq!(NetworkSize::from_whole_peer_count(4), NetworkSize::Medium);
    assert_eq!(NetworkSize::from_whole_peer_count(15), NetworkSize::Medium);
    assert_eq!(NetworkSize::from_whole_peer_count(16), NetworkSize::Large);
    assert_eq!(NetworkSize::from_whole_peer_count(-1), NetworkSize::Large);
    assert_eq!(NetworkSize::Medium.label(), "Medium");
    assert_eq!(network_size_label(2), "Small");
    assert_eq!(network_size_label(10), "Medium");
    assert_eq!(network_size_label(1_000_000_000_000), "Large");
    assert_eq!(network_size_label(-5), "Large");
}
