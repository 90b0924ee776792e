use p2p_app::group_crypto::{
    ed25519_public_bytes, public_key_result, group_control_message, hex_decode, hex_encode, sign_group_control,
    signed_group_control, verify_group_control, GroupControl, GroupCryptoError, HexError,
    SignedGroupControl, ED25519_KEY_LEN, ED25519_SIG_LEN,
};

fn add(group: &str, target: &str) -> GroupControl {
    GroupControl::AddMember {
        group_id: group.into(),
        target_peer_id: target.into(),
    }
}

#[test]
fn hex_encode_is_lowercase_two_digits_per_byte() {
    assert_eq!(hex_encode(&[]), "");
    assert_eq!(hex_encode(&[0x00, 0x0f, 0xa5, 0xff]), "000fa5ff");
}

#[test]
fn hex_decode_reads_back_and_rejects() {
    assert_eq!(hex_decode("000fa5ff").unwrap(), vec![0x00, 0x0f, 0xa5, 0xff]);
    assert_eq!(hex_decode("").unwrap(), Vec::<u8>::new());
    assert_eq!(hex_decode("abc"), Err(HexError::OddLength));
    assert_eq!(hex_decode("zz"), Err(HexError::NonHexCharacter));
    // Uppercase digits are not accepted.
    assert_eq!(hex_decode("AB"), Err(HexError::NonHexCharacter));
    assert_eq!(HexError::OddLength.message(), "odd-length hex string");
    assert_eq!(HexError::NonHexCharacter.message(), "non-hex character in string");
    let bytes: Vec<u8> = (0..=255u8).collect();
    assert_eq!(hex_decode(&hex_encode(&bytes)).unwrap(), bytes);
}

#[test]
fn control_message_is_compact_json() {
    let m = group_control_message(&add("g1", "p2"));
    assert_eq!(
        String::from_utf8(m).unwrap(),
        r#"{"AddMember":{"group_id":"g1","target_peer_id":"p2"}}"#
    );
    let r = GroupControl::RemoveMember {
        group_id: "a\"b\\c\nd\u{1}é".into(),
        target_peer_id: "t\tx".into(),
    };
    assert_eq!(
        String::from_utf8(group_control_message(&r)).unwrap(),
        "{\"RemoveMember\":{\"group_id\":\"a\\\"b\\\\c\\nd\\u0001é\",\"target_peer_id\":\"t\\tx\"}}"
    );
}

#[test]
fn signed_control_carries_hex_signature() {
    let s = signed_group_control(add("g", "t"), "signer", &[1, 2, 255]);
    assert_eq!(s.signer, "signer");
    assert_eq!(s.signature, "0102ff");
    assert_eq!(s.control, add("g", "t"));
}

#[test]
fn sign_then_verify_with_own_key() {
    let keypair = libp2p_identity::Keypair::generate_ed25519();
    let public = ed25519_public_bytes(&keypair).unwrap();
    assert_eq!(public.len(), ED25519_KEY_LEN);
    let key_hex = hex_encode(&public);
    let signed = sign_group_control(add("g1", "peer-x"), "me", &keypair).unwrap();
    assert_eq!(signed.signer, "me");
    assert_eq!(signed.signature.len(), 2 * ED25519_SIG_LEN);
    assert_eq!(verify_group_control(&signed, &key_hex), Ok(()));

    // Another control under the same signature does not verify.
    let forged = SignedGroupControl {
        control: GroupControl::RemoveMember {
            group_id: "g1".into(),
            target_peer_id: "peer-x".into(),
        },
        ..signed.clone()
    };
    assert_eq!(
        verify_group_control(&forged, &key_hex),
        Err(GroupCryptoError::BadSignature)
    );
    assert_eq!(
        GroupCryptoError::BadSignature.message(),
        "group control signature does not verify"
    );

    // Another member's key does not verify it either.
    let other = libp2p_identity::Keypair::generate_ed25519();
    let other_hex = hex_encode(&ed25519_public_bytes(&other).unwrap());
    assert_eq!(
        verify_group_control(&signed, &other_hex),
        Err(GroupCryptoError::BadSignature)
    );
}

#[test]
fn verify_rejects_malformed_inputs() {
    let keypair = libp2p_identity::Keypair::generate_ed25519();
    let key_hex = hex_encode(&ed25519_public_bytes(&keypair).unwrap());
    let signed = sign_group_control(add("g", "t"), "me", &keypair).unwrap();
    assert_eq!(
        verify_group_control(&signed, "abc"),
        Err(GroupCryptoError::Hex(HexError::OddLength))
    );
    assert_eq!(
        verify_group_control(&signed, "0102"),
        Err(GroupCryptoError::KeyLength)
    );
    let short_sig = SignedGroupControl {
        signature: "00ff".into(),
        ..signed.clone()
    };
    assert_eq!(
        verify_group_control(&short_sig, &key_hex),
        Err(GroupCryptoError::SignatureLength)
    );
    let bad_sig = SignedGroupControl {
        signature: "xy".into(),
        ..signed.clone()
    };
    assert_eq!(
        verify_group_control(&bad_sig, &key_hex),
        Err(GroupCryptoError::Hex(HexError::NonHexCharacter))
    );
    assert_eq!(GroupCryptoError::KeyLength.message(), "ed25519 key must be 32 bytes");
    assert_eq!(GroupCryptoError::SignatureLength.message(), "signature must be 64 bytes");
}

#[test]
fn public_key_result_maps_lookup() {
    let bytes = [7u8; 32];
    assert_eq!(public_key_result(Some(bytes)), Ok(bytes));
    assert_eq!(public_key_result(None), Err(GroupCryptoError::NotEd25519));
}

fn serde_form(variant: &str, group: &str, target: &str) -> Vec<u8> {
    let mut inner = serde_json::Map::new();
    inner.insert("group_id".to_string(), serde_json::Value::String(group.to_string()));
    inner.insert("target_peer_id".to_string(), serde_json::Value::String(target.to_string()));
    let mut outer = serde_json::Map::new();
    outer.insert(variant.to_string(), serde_json::Value::Object(inner));
    serde_json::to_vec(&serde_json::Value::Object(outer)).unwrap()
}

#[test]
fn control_message_matches_serde_json() {
    let samples = [
        ("g", "p"),
        ("a\"b\\c", "\n\r\t\u{8}\u{c}"),
        ("\u{0}\u{1f}\u{7f}", "é€😀"),
        ("/slash/", "\u{2028}\u{2029}"),
    ];
    for (g, t) in samples {
        let add = GroupControl::AddMember { group_id: g.into(), target_peer_id: t.into() };
        assert_eq!(group_control_message(&add), serde_form("AddMember", g, t));
        let rm = GroupControl::RemoveMember { group_id: g.into(), target_peer_id: t.into() };
        assert_eq!(group_control_message(&rm), serde_form("RemoveMember", g, t));
    }
}
