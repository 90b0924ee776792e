//! Private-group control plane: membership changes signed with the node's
//! Ed25519 identity, and the hex encoding used for keys and signatures.

use vstd::prelude::*;
use crate::text::{hex_digit, hex_digit_char, owned, push_char};

verus! {

/// Length of an Ed25519 public key in bytes.
pub const ED25519_KEY_LEN: usize = 32;

/// Length of an Ed25519 signature in bytes.
pub const ED25519_SIG_LEN: usize = 64;

/// Lowercase hex of bytes: two digits per byte, high digit first.
pub open spec fn spec_hex_encode(bytes: Seq<u8>) -> Seq<char>
    decreases bytes.len(),
{
    if bytes.len() == 0 {
        Seq::empty()
    } else {
        spec_hex_encode(bytes.drop_last()) + seq![
            hex_digit_char((bytes.last() / 16) as nat),
            hex_digit_char((bytes.last() % 16) as nat),
        ]
    }
}

/// Encode bytes as lowercase hex.
pub fn hex_encode(bytes: &[u8]) -> (r: String)
    ensures
        r@ == spec_hex_encode(bytes@),
{
    let mut out = String::new();
    let mut i: usize = 0;
    assert(bytes@.take(0) =~= Seq::<u8>::empty());
    while i < bytes.len()
        invariant
            i <= bytes@.len(),
            out@ == spec_hex_encode(bytes@.take(i as int)),
        decreases bytes.len() - i,
    {
        let b = bytes[i];
        assert(bytes@.take(i + 1).drop_last() =~= bytes@.take(i as int));
        push_char(&mut out, hex_digit((b / 16) as u64));
        push_char(&mut out, hex_digit((b % 16) as u64));
        assert(out@ =~= spec_hex_encode(bytes@.take(i + 1)));
        i += 1;
    }
    assert(bytes@.take(bytes@.len() as int) =~= bytes@);
    out
}

/// The value of a lowercase hex digit byte (`0`-`9`, `a`-`f`).
pub open spec fn spec_nibble(b: u8) -> Option<u8> {
    if 48 <= b <= 57 {
        Some((b - 48) as u8)
    } else if 97 <= b <= 102 {
        Some((b - 97 + 10) as u8)
    } else {
        None
    }
}

/// Value of a hex nibble, or `None` if `b` is not a lowercase hex digit.
pub fn nibble(b: u8) -> (r: Option<u8>)
    ensures
        r == spec_nibble(b),
{
    if 48 <= b && b <= 57 {
        Some(b - 48)
    } else if 97 <= b && b <= 102 {
        Some(b - 97 + 10)
    } else {
        None
    }
}

/// Why a hex string was rejected.
#[derive(Debug, Clone, Copy, PartialEq, Eq, Structural)]
pub enum HexError {
    /// The string has an odd number of bytes.
    OddLength,
    /// A byte is not a lowercase hex digit.
    NonHexCharacter,
}

impl HexError {
    /// The message of the error.
    pub fn message(&self) -> (r: &'static str)
        ensures
            r@ == match *self {
                HexError::OddLength => "odd-length hex string"@,
                HexError::NonHexCharacter => "non-hex character in string"@,
            },
    {
        match self {
            HexError::OddLength => "odd-length hex string",
            HexError::NonHexCharacter => "non-hex character in string",
        }
    }
}

/// Every byte is a lowercase hex digit.
pub open spec fn all_nibbles(b: Seq<u8>) -> bool {
    forall|i: int| 0 <= i < b.len() ==> (#[trigger] spec_nibble(b[i])) is Some
}

/// The bytes that a hex text of even length and lowercase digits stands for.
pub open spec fn spec_hex_bytes(b: Seq<u8>) -> Seq<u8> {
    Seq::new(
        b.len() / 2,
        |i: int| (spec_nibble(b[2 * i])->0 * 16 + spec_nibble(b[2 * i + 1])->0) as u8,
    )
}

/// Decoding of a hex text, given as its bytes: the bytes it stands for, or
/// why it is rejected (odd length first, then a non-digit).
pub open spec fn spec_hex_decode(b: Seq<u8>) -> Result<Seq<u8>, HexError> {
    if b.len() % 2 != 0 {
        Err(HexError::OddLength)
    } else if !all_nibbles(b) {
        Err(HexError::NonHexCharacter)
    } else {
        Ok(spec_hex_bytes(b))
    }
}

/// Decode lowercase hex into bytes.
pub fn hex_decode(s: &str) -> (r: Result<Vec<u8>, HexError>)
    ensures
        match r {
            Ok(v) => spec_hex_decode(vstd::utf8::encode_utf8(s@)) == Ok::<Seq<u8>, HexError>(v@),
            Err(e) => spec_hex_decode(vstd::utf8::encode_utf8(s@)) == Err::<Seq<u8>, HexError>(e),
        },
{
    let b = s.as_bytes();
    if b.len() % 2 != 0 {
        return Err(HexError::OddLength);
    }
    let mut out: Vec<u8> = Vec::new();
    let mut i: usize = 0;
    while i < b.len() / 2
        invariant
            b@ == vstd::utf8::encode_utf8(s@),
            b@.len() % 2 == 0,
            i <= b@.len() / 2,
            out@.len() == i,
            forall|j: int| 0 <= j < 2 * i ==> (#[trigger] spec_nibble(b@[j])) is Some,
            forall|j: int| 0 <= j < i ==> #[trigger] out@[j] == spec_hex_bytes(b@)[j],
        decreases b.len() / 2 - i,
    {
        let hi = match nibble(b[2 * i]) {
            Some(v) => v,
            None => {
                proof {
                    assert(!all_nibbles(b@));
                    assert(spec_hex_decode(b@) == Err::<Seq<u8>, HexError>(HexError::NonHexCharacter));
                }
                return Err(HexError::NonHexCharacter);
            },
        };
        let lo = match nibble(b[2 * i + 1]) {
            Some(v) => v,
            None => {
                proof {
                    assert(!all_nibbles(b@));
                    assert(spec_hex_decode(b@) == Err::<Seq<u8>, HexError>(HexError::NonHexCharacter));
                }
                return Err(HexError::NonHexCharacter);
            },
        };
        out.push(hi * 16 + lo);
        i += 1;
    }
    proof {
        assert forall|j: int| 0 <= j < b@.len() implies (#[trigger] spec_nibble(b@[j])) is Some by {}
        assert(out@ =~= spec_hex_bytes(b@));
    }
    Ok(out)
}

proof fn lemma_hex_digit_ascii(d: nat)
    requires
        d < 16,
    ensures
        '\0' <= hex_digit_char(d) <= '\u{7f}',
        spec_nibble(hex_digit_char(d) as u32 as u8) == Some(d as u8),
{
}

proof fn lemma_hex_encode_shape(bytes: Seq<u8>)
    ensures
        spec_hex_encode(bytes).len() == 2 * bytes.len(),
        forall|i: int|
            0 <= i < bytes.len() ==> spec_hex_encode(bytes)[2 * i] == hex_digit_char(
                (bytes[i] / 16) as nat,
            ) && spec_hex_encode(bytes)[2 * i + 1] == hex_digit_char((bytes[i] % 16) as nat),
    decreases bytes.len(),
{
    if bytes.len() > 0 {
        let init = bytes.drop_last();
        lemma_hex_encode_shape(init);
        assert forall|i: int|
            0 <= i < bytes.len() implies spec_hex_encode(bytes)[2 * i] == hex_digit_char(
            (bytes[i] / 16) as nat,
        ) && spec_hex_encode(bytes)[2 * i + 1] == hex_digit_char((bytes[i] % 16) as nat) by {
            if i < init.len() {
                assert(init[i] == bytes[i]);
            }
        }
    }
}

/// Decoding the hex encoding of bytes gives the bytes back.
pub proof fn lemma_hex_round_trip(bytes: Seq<u8>)
    ensures
        spec_hex_decode(vstd::utf8::encode_utf8(spec_hex_encode(bytes))) == Ok::<Seq<u8>, HexError>(
            bytes,
        ),
{
    let h = spec_hex_encode(bytes);
    lemma_hex_encode_shape(bytes);
    assert forall|i: int| 0 <= i < h.len() implies '\0' <= #[trigger] h[i] <= '\u{7f}' by {
        let k = i / 2;
        assert(i == 2 * k || i == 2 * k + 1);
        lemma_hex_digit_ascii((bytes[k] / 16) as nat);
        lemma_hex_digit_ascii((bytes[k] % 16) as nat);
    }
    assert(vstd::utf8::is_ascii_chars(h));
    vstd::utf8::is_ascii_chars_encode_utf8(h);
    let b = vstd::utf8::encode_utf8(h);
    assert forall|i: int| 0 <= i < b.len() implies (#[trigger] spec_nibble(b[i])) is Some by {
        let k = i / 2;
        assert(i == 2 * k || i == 2 * k + 1);
        lemma_hex_digit_ascii((bytes[k] / 16) as nat);
        lemma_hex_digit_ascii((bytes[k] % 16) as nat);
    }
    assert forall|k: int| 0 <= k < bytes.len() implies #[trigger] spec_hex_bytes(b)[k] == bytes[k] by {
        lemma_hex_digit_ascii((bytes[k] / 16) as nat);
        lemma_hex_digit_ascii((bytes[k] % 16) as nat);
    }
    assert(spec_hex_bytes(b) =~= bytes);
}

/// A membership-control action for a private group.
#[derive(Debug, Clone, PartialEq, Eq)]
pub enum GroupControl {
    /// Invite `target_peer_id` into the group; signed by an existing member.
    AddMember {
        /// The group this control targets.
        group_id: String,
        /// The member being invited.
        target_peer_id: String,
    },
    /// Remove `target_peer_id` from the group; signed by an existing member.
    RemoveMember {
        /// The group this control targets.
        group_id: String,
        /// The member being removed.
        target_peer_id: String,
    },
}

/// A [`GroupControl`] signed by an existing member's Ed25519 identity.
#[derive(Debug, Clone, PartialEq, Eq)]
pub struct SignedGroupControl {
    /// The control action.
    pub control: GroupControl,
    /// The acting member's peer id (the signer).
    pub signer: String,
    /// Hex-encoded Ed25519 signature over the serialized control.
    pub signature: String,
}

/// Lowercase hex digit of `d < 16`, as an ASCII byte.
pub open spec fn hex_digit_byte(d: u8) -> u8 {
    if d < 10 {
        (48 + d) as u8
    } else {
        (87 + d) as u8
    }
}

/// The JSON text of one byte of a string's UTF-8 encoding: quote and
/// backslash are escaped, the control characters get their short escape or a
/// `\u00XX` escape with lowercase hex digits, every other byte stands as it is.
pub open spec fn json_escaped_byte(b: u8) -> Seq<u8> {
    if b == 0x22 {
        seq![0x5Cu8, 0x22u8]
    } else if b == 0x5C {
        seq![0x5Cu8, 0x5Cu8]
    } else if b == 0x08 {
        seq![0x5Cu8, 0x62u8]
    } else if b == 0x09 {
        seq![0x5Cu8, 0x74u8]
    } else if b == 0x0A {
        seq![0x5Cu8, 0x6Eu8]
    } else if b == 0x0C {
        seq![0x5Cu8, 0x66u8]
    } else if b == 0x0D {
        seq![0x5Cu8, 0x72u8]
    } else if b < 0x20 {
        seq![0x5Cu8, 0x75u8, 0x30u8, 0x30u8, hex_digit_byte(b / 16), hex_digit_byte(b % 16)]
    } else {
        seq![b]
    }
}

/// The escaped body of a JSON string, byte by byte.
pub open spec fn json_escaped(s: Seq<u8>) -> Seq<u8>
    decreases s.len(),
{
    if s.len() == 0 {
        Seq::empty()
    } else {
        json_escaped(s.drop_last()) + json_escaped_byte(s.last())
    }
}

/// A JSON string literal holding the UTF-8 bytes `s`.
pub open spec fn json_string(s: Seq<u8>) -> Seq<u8> {
    seq![0x22u8] + json_escaped(s) + seq![0x22u8]
}

/// The bytes that a group control is signed over: its compact JSON form, an
/// object keyed by the variant name whose value holds `group_id` and then
/// `target_peer_id`.
pub open spec fn spec_control_message(control: GroupControl) -> Seq<u8> {
    let (tag, group_id, target) = match control {
        GroupControl::AddMember { group_id, target_peer_id } => (
            "AddMember"@,
            group_id@,
            target_peer_id@,
        ),
        GroupControl::RemoveMember { group_id, target_peer_id } => (
            "RemoveMember"@,
            group_id@,
            target_peer_id@,
        ),
    };
    seq![0x7Bu8] + json_string(vstd::utf8::encode_utf8(tag)) + seq![0x3Au8, 0x7Bu8]
        + json_string(vstd::utf8::encode_utf8("group_id"@)) + seq![0x3Au8]
        + json_string(vstd::utf8::encode_utf8(group_id)) + seq![0x2Cu8]
        + json_string(vstd::utf8::encode_utf8("target_peer_id"@)) + seq![0x3Au8]
        + json_string(vstd::utf8::encode_utf8(target)) + seq![0x7Du8, 0x7Du8]
}

/// Append the JSON escape of one byte.
fn push_json_escaped_byte(out: &mut Vec<u8>, b: u8)
    ensures
        final(out)@ == old(out)@ + json_escaped_byte(b),
{
    if b == 0x22 {
        out.push(0x5C);
        out.push(0x22);
    } else if b == 0x5C {
        out.push(0x5C);
        out.push(0x5C);
    } else if b == 0x08 {
        out.push(0x5C);
        out.push(0x62);
    } else if b == 0x09 {
        out.push(0x5C);
        out.push(0x74);
    } else if b == 0x0A {
        out.push(0x5C);
        out.push(0x6E);
    } else if b == 0x0C {
        out.push(0x5C);
        out.push(0x66);
    } else if b == 0x0D {
        out.push(0x5C);
        out.push(0x72);
    } else if b < 0x20 {
        out.push(0x5C);
        out.push(0x75);
        out.push(0x30);
        out.push(0x30);
        let hi = b / 16;
        let lo = b % 16;
        out.push(if hi < 10 { 48 + hi } else { 87 + hi });
        out.push(if lo < 10 { 48 + lo } else { 87 + lo });
    } else {
        out.push(b);
    }
    assert(final(out)@ =~= old(out)@ + json_escaped_byte(b));
}

/// Append `s` as a JSON string literal.
fn push_json_string(out: &mut Vec<u8>, s: &str)
    ensures
        final(out)@ == old(out)@ + json_string(vstd::utf8::encode_utf8(s@)),
{
    let b = s.as_bytes();
    let ghost start = out@;
    out.push(0x22);
    let mut i: usize = 0;
    assert(b@.take(0) =~= Seq::<u8>::empty());
    while i < b.len()
        invariant
            i <= b@.len(),
            out@ == start + seq![0x22u8] + json_escaped(b@.take(i as int)),
        decreases b.len() - i,
    {
        assert(b@.take(i + 1).drop_last() =~= b@.take(i as int));
        push_json_escaped_byte(out, b[i]);
        assert(out@ =~= start + seq![0x22u8] + json_escaped(b@.take(i + 1)));
        i += 1;
    }
    assert(b@.take(b@.len() as int) =~= b@);
    out.push(0x22);
    assert(out@ =~= start + json_string(b@));
}

/// The bytes that a group control is signed and verified over.
pub fn group_control_message(control: &GroupControl) -> (r: Vec<u8>)
    ensures
        r@ == spec_control_message(*control),
{
    let mut out: Vec<u8> = Vec::new();
    out.push(0x7B);
    match control {
        GroupControl::AddMember { group_id, target_peer_id } => {
            push_json_string(&mut out, "AddMember");
            out.push(0x3A);
            out.push(0x7B);
            push_json_string(&mut out, "group_id");
            out.push(0x3A);
            push_json_string(&mut out, group_id.as_str());
            out.push(0x2C);
            push_json_string(&mut out, "target_peer_id");
            out.push(0x3A);
            push_json_string(&mut out, target_peer_id.as_str());
        },
        GroupControl::RemoveMember { group_id, target_peer_id } => {
            push_json_string(&mut out, "RemoveMember");
            out.push(0x3A);
            out.push(0x7B);
            push_json_string(&mut out, "group_id");
            out.push(0x3A);
            push_json_string(&mut out, group_id.as_str());
            out.push(0x2C);
            push_json_string(&mut out, "target_peer_id");
            out.push(0x3A);
            push_json_string(&mut out, target_peer_id.as_str());
        },
    }
    out.push(0x7D);
    out.push(0x7D);
    assert(out@ =~= spec_control_message(*control));
    out
}

/// Why a group-control operation failed.
#[derive(Debug, Clone, Copy, PartialEq, Eq, Structural)]
pub enum GroupCryptoError {
    /// A hex field (key or signature) is malformed.
    Hex(HexError),
    /// The member key does not decode to the length of an Ed25519 public key.
    KeyLength,
    /// The member key bytes are not a point on the curve.
    MalformedKey,
    /// The signature does not decode to the length of an Ed25519 signature.
    SignatureLength,
    /// The signature does not verify against the key and the control.
    BadSignature,
    /// The node identity is not an Ed25519 key.
    NotEd25519,
    /// The identity keypair could not sign.
    SigningFailed,
}

impl GroupCryptoError {
    /// The message of the error.
    pub fn message(&self) -> (r: &'static str)
        ensures
            r@ == match *self {
                GroupCryptoError::Hex(HexError::OddLength) => "odd-length hex string"@,
                GroupCryptoError::Hex(HexError::NonHexCharacter) => "non-hex character in string"@,
                GroupCryptoError::KeyLength => "ed25519 key must be 32 bytes"@,
                GroupCryptoError::MalformedKey => "malformed ed25519 public key"@,
                GroupCryptoError::SignatureLength => "signature must be 64 bytes"@,
                GroupCryptoError::BadSignature => "group control signature does not verify"@,
                GroupCryptoError::NotEd25519 => "libp2p identity is not an ed25519 key"@,
                GroupCryptoError::SigningFailed => "failed to sign group control"@,
            },
    {
        match self {
            GroupCryptoError::Hex(e) => e.message(),
            GroupCryptoError::KeyLength => "ed25519 key must be 32 bytes",
            GroupCryptoError::MalformedKey => "malformed ed25519 public key",
            GroupCryptoError::SignatureLength => "signature must be 64 bytes",
            GroupCryptoError::BadSignature => "group control signature does not verify",
            GroupCryptoError::NotEd25519 => "libp2p identity is not an ed25519 key",
            GroupCryptoError::SigningFailed => "failed to sign group control",
        }
    }
}

#[verifier::external_type_specification]
#[verifier::external_body]
pub struct ExKeypair(libp2p_identity::Keypair);

/// Whether `VerifyingKey::from_bytes` of ed25519-dalek accepts these 32 bytes
/// (they decompress to a curve point); a function of the bytes alone.
pub uninterp spec fn ed25519_point_valid(key: Seq<u8>) -> bool;

/// Whether ed25519-dalek's `verify_strict` accepts `signature` over `message`
/// for the public key with these bytes; a function of its arguments alone.
pub uninterp spec fn ed25519_strict_accepts(key: Seq<u8>, message: Seq<u8>, signature: Seq<u8>) -> bool;

/// Calls `ed25519_dalek::VerifyingKey::from_bytes`; the contract names its
/// success `ed25519_point_valid` of the key bytes.
#[verifier::external_body]
fn ed25519_key_decodes(key: &[u8; 32]) -> (r: bool)
    ensures
        r == ed25519_point_valid(key@),
{
    ed25519_dalek::VerifyingKey::from_bytes(key).is_ok()
}

/// Calls `ed25519_dalek::VerifyingKey::verify_strict` on the key decoded from
/// `key` and the signature read from `signature`; the contract names its
/// success `ed25519_strict_accepts` of the three byte strings.
#[verifier::external_body]
fn ed25519_verify_strict(key: &[u8; 32], message: &[u8], signature: &[u8; 64]) -> (r: bool)
    requires
        ed25519_point_valid(key@),
    ensures
        r == ed25519_strict_accepts(key@, message@, signature@),
{
    match ed25519_dalek::VerifyingKey::from_bytes(key) {
        Ok(k) => k.verify_strict(message, &ed25519_dalek::Signature::from_bytes(signature)).is_ok(),
        Err(_) => false,
    }
}

/// Signs `message` with the keypair and reads the keypair's Ed25519 public
/// key: calls `libp2p_identity::Keypair::sign` and `Keypair::public`, then
/// `PublicKey::try_into_ed25519` and `to_bytes`.
///
/// With the key kinds built here (only `ed25519` among them) a `Keypair` is
/// always an Ed25519 keypair, whose `sign` returns `Ok` with the
/// ed25519-dalek signature and whose public key converts. This rests on the
/// features of libp2p-identity: were its `rsa`, `secp256k1` or `ecdsa`
/// features ever enabled, a keypair could be of another kind and `r is Some`
/// would no longer hold. The contract
/// states that both come back, that the signature is 64 bytes, that the key
/// bytes decode to a curve point, and that strict verification accepts the
/// signature over `message` under that key. The bytes themselves depend on
/// the secret key and are left unsaid.
#[verifier::external_body]
fn keypair_sign(keypair: &libp2p_identity::Keypair, message: &[u8]) -> (r: Option<(Vec<u8>, [u8; 32])>)
    ensures
        r is Some,
        r matches Some((sig, key)) ==> {
            &&& sig@.len() == ED25519_SIG_LEN
            &&& ed25519_point_valid(key@)
            &&& ed25519_strict_accepts(key@, message@, sig@)
        },
{
    match (keypair.sign(message), keypair.public().try_into_ed25519()) {
        (Ok(sig), Ok(key)) => Some((sig, key.to_bytes())),
        _ => None,
    }
}

/// Calls `Keypair::public` and `PublicKey::try_into_ed25519` of
/// libp2p-identity, then `to_bytes`. With the key kinds built here (only the
/// `ed25519` feature; enabling `rsa`, `secp256k1` or `ecdsa` would break
/// this) a `Keypair` is always Ed25519, so the conversion succeeds and the bytes
/// decode to a curve point; which bytes they are is read from the keypair,
/// which Verus does not see into.
#[verifier::external_body]
fn keypair_ed25519_public(keypair: &libp2p_identity::Keypair) -> (r: Option<[u8; 32]>)
    ensures
        r is Some,
        r matches Some(key) ==> ed25519_point_valid(key@),
{
    keypair.public().try_into_ed25519().ok().map(|k| k.to_bytes())
}

/// What the public-key lookup answers for what the identity gave back: its
/// Ed25519 key bytes, or `NotEd25519` where the identity holds another kind.
pub fn public_key_result(found: Option<[u8; 32]>) -> (r: Result<[u8; 32], GroupCryptoError>)
    ensures
        match found {
            Some(bytes) => r == Ok::<[u8; 32], GroupCryptoError>(bytes),
            None => r == Err::<[u8; 32], GroupCryptoError>(GroupCryptoError::NotEd25519),
        },
{
    match found {
        Some(bytes) => Ok(bytes),
        None => Err(GroupCryptoError::NotEd25519),
    }
}

/// The node's 32-byte Ed25519 public key, read from its libp2p identity;
/// with the key kinds built here the identity is always Ed25519.
pub fn ed25519_public_bytes(keypair: &libp2p_identity::Keypair) -> (r: Result<[u8; 32], GroupCryptoError>)
    ensures
        r matches Ok(key) && ed25519_point_valid(key@),
{
    public_key_result(keypair_ed25519_public(keypair))
}

/// Copy exactly 32 bytes into an array.
fn key_array(v: &[u8]) -> (r: [u8; 32])
    requires
        v@.len() == 32,
    ensures
        r@ == v@,
{
    let mut a = [0u8; 32];
    let mut i: usize = 0;
    while i < 32
        invariant
            v@.len() == 32,
            i <= 32,
            a@.len() == 32,
            forall|j: int| 0 <= j < i ==> a@[j] == v@[j],
        decreases 32 - i,
    {
        a.set(i, v[i]);
        i += 1;
    }
    assert(a@ =~= v@);
    a
}

/// Copy exactly 64 bytes into an array.
fn signature_array(v: &[u8]) -> (r: [u8; 64])
    requires
        v@.len() == 64,
    ensures
        r@ == v@,
{
    let mut a = [0u8; 64];
    let mut i: usize = 0;
    while i < 64
        invariant
            v@.len() == 64,
            i <= 64,
            a@.len() == 64,
            forall|j: int| 0 <= j < i ==> a@[j] == v@[j],
        decreases 64 - i,
    {
        a.set(i, v[i]);
        i += 1;
    }
    assert(a@ =~= v@);
    a
}

/// A control signed by `signer_peer_id` with the signature bytes given.
pub fn signed_group_control(control: GroupControl, signer_peer_id: &str, signature: &[u8]) -> (r:
    SignedGroupControl)
    ensures
        r.control == control,
        r.signer@ == signer_peer_id@,
        r.signature@ == spec_hex_encode(signature@),
{
    SignedGroupControl { control, signer: owned(signer_peer_id), signature: hex_encode(signature) }
}

/// Sign a membership-control message with the node's Ed25519 identity
/// keypair: the signature is over [`group_control_message`] of the control.
pub fn sign_group_control(
    control: GroupControl,
    signer_peer_id: &str,
    keypair: &libp2p_identity::Keypair,
) -> (r: Result<SignedGroupControl, GroupCryptoError>)
    ensures
        r matches Ok(s) && {
            &&& s.control == control
            &&& s.signer@ == signer_peer_id@
            &&& exists|key: Seq<u8>|
                key.len() == ED25519_KEY_LEN && spec_verify_outcome(
                    control,
                    s.signature@,
                    spec_hex_encode(key),
                ) == Ok::<(), GroupCryptoError>(())
        },
{
    let message = group_control_message(&control);
    match keypair_sign(keypair, message.as_slice()) {
        Some((sig, key)) => {
            let s = signed_group_control(control, signer_peer_id, sig.as_slice());
            proof {
                lemma_hex_round_trip(key@);
                lemma_hex_round_trip(sig@);
                assert(spec_verify_outcome(control, s.signature@, spec_hex_encode(key@)) == Ok::<
                    (),
                    GroupCryptoError,
                >(()));
            }
            Ok(s)
        },
        None => Err(GroupCryptoError::SigningFailed),
    }
}

/// What checking a signed control against a member's key hex gives: the key
/// hex must decode to 32 bytes that are a curve point, the signature hex to
/// 64 bytes, and the signature must verify strictly over the control's
/// message; the first check that fails decides the error.
pub open spec fn spec_verify_outcome(
    control: GroupControl,
    signature_hex: Seq<char>,
    key_hex: Seq<char>,
) -> Result<(), GroupCryptoError> {
    match spec_hex_decode(vstd::utf8::encode_utf8(key_hex)) {
        Err(e) => Err(GroupCryptoError::Hex(e)),
        Ok(key) => if key.len() != ED25519_KEY_LEN {
            Err(GroupCryptoError::KeyLength)
        } else if !ed25519_point_valid(key) {
            Err(GroupCryptoError::MalformedKey)
        } else {
            match spec_hex_decode(vstd::utf8::encode_utf8(signature_hex)) {
                Err(e) => Err(GroupCryptoError::Hex(e)),
                Ok(sig) => if sig.len() != ED25519_SIG_LEN {
                    Err(GroupCryptoError::SignatureLength)
                } else if ed25519_strict_accepts(key, spec_control_message(control), sig) {
                    Ok(())
                } else {
                    Err(GroupCryptoError::BadSignature)
                },
            }
        },
    }
}

/// Verify a signed control message against the acting member's Ed25519
/// public key hex (from the local member list).
pub fn verify_group_control(signed: &SignedGroupControl, member_ed25519_key_hex: &str) -> (r: Result<
    (),
    GroupCryptoError,
>)
    ensures
        r == spec_verify_outcome(signed.control, signed.signature@, member_ed25519_key_hex@),
{
    let key = match hex_decode(member_ed25519_key_hex) {
        Ok(k) => k,
        Err(e) => return Err(GroupCryptoError::Hex(e)),
    };
    if key.len() != ED25519_KEY_LEN {
        return Err(GroupCryptoError::KeyLength);
    }
    let key_bytes = key_array(key.as_slice());
    if !ed25519_key_decodes(&key_bytes) {
        return Err(GroupCryptoError::MalformedKey);
    }
    let sig = match hex_decode(signed.signature.as_str()) {
        Ok(s) => s,
        Err(e) => return Err(GroupCryptoError::Hex(e)),
    };
    if sig.len() != ED25519_SIG_LEN {
        return Err(GroupCryptoError::SignatureLength);
    }
    let sig_bytes = signature_array(sig.as_slice());
    let message = group_control_message(&signed.control);
    if ed25519_verify_strict(&key_bytes, message.as_slice(), &sig_bytes) {
        Ok(())
    } else {
        Err(GroupCryptoError::BadSignature)
    }
}

/// The value of a lowercase hex digit byte, if it is one.
pub open spec fn hex_byte_value(b: u8) -> Option<u8> {
    spec_nibble(b)
}

/// The byte that the escape `\c` stands for (`u` escapes aside).
pub open spec fn short_escape(c: u8) -> Option<u8> {
    if c == 0x22 {
        Some(0x22u8)
    } else if c == 0x5C {
        Some(0x5Cu8)
    } else if c == 0x62 {
        Some(0x08u8)
    } else if c == 0x74 {
        Some(0x09u8)
    } else if c == 0x6E {
        Some(0x0Au8)
    } else if c == 0x66 {
        Some(0x0Cu8)
    } else if c == 0x72 {
        Some(0x0Du8)
    } else {
        None
    }
}

/// Read the body of a JSON string up to its closing quote: the bytes it
/// stands for and what follows the quote; `None` when there is no closing
/// quote or an escape is malformed.
pub open spec fn read_json_string(b: Seq<u8>) -> Option<(Seq<u8>, Seq<u8>)>
    decreases b.len(),
{
    if b.len() == 0 {
        None
    } else if b[0] == 0x22 {
        Some((Seq::empty(), b.drop_first()))
    } else if b[0] == 0x5C {
        if b.len() < 2 {
            None
        } else if short_escape(b[1]) is Some {
            match read_json_string(b.skip(2)) {
                Some((s, rest)) => Some((seq![short_escape(b[1])->0] + s, rest)),
                None => None,
            }
        } else if b[1] == 0x75 && b.len() >= 6 && b[2] == 0x30 && b[3] == 0x30 && hex_byte_value(
            b[4],
        ) is Some && hex_byte_value(b[5]) is Some {
            match read_json_string(b.skip(6)) {
                Some((s, rest)) => Some(
                    (
                        seq![(hex_byte_value(b[4])->0 * 16 + hex_byte_value(b[5])->0) as u8] + s,
                        rest,
                    ),
                ),
                None => None,
            }
        } else {
            None
        }
    } else {
        match read_json_string(b.drop_first()) {
            Some((s, rest)) => Some((seq![b[0]] + s, rest)),
            None => None,
        }
    }
}

proof fn lemma_json_escaped_front(x: u8, s: Seq<u8>)
    ensures
        json_escaped(seq![x] + s) == json_escaped_byte(x) + json_escaped(s),
    decreases s.len(),
{
    if s.len() == 0 {
        assert((seq![x] + s).drop_last() =~= Seq::<u8>::empty());
        assert(json_escaped(Seq::<u8>::empty()) =~= Seq::<u8>::empty());
        assert(json_escaped(seq![x] + s) =~= json_escaped_byte(x) + json_escaped(s));
    } else {
        lemma_json_escaped_front(x, s.drop_last());
        assert((seq![x] + s).drop_last() =~= seq![x] + s.drop_last());
        assert((seq![x] + s).last() == s.last());
        assert(json_escaped(seq![x] + s) =~= json_escaped_byte(x) + json_escaped(s));
    }
}

proof fn lemma_hex_digit_byte_value(d: u8)
    requires
        d < 16,
    ensures
        hex_byte_value(hex_digit_byte(d)) == Some(d),
{
}

/// Reading back an escaped string and its closing quote gives the string
/// and what follows.
pub proof fn lemma_read_json_string(s: Seq<u8>, rest: Seq<u8>)
    ensures
        read_json_string(json_escaped(s) + seq![0x22u8] + rest) == Some((s, rest)),
    decreases s.len(),
{
    if s.len() == 0 {
        assert(json_escaped(s) =~= Seq::<u8>::empty());
        let b = json_escaped(s) + seq![0x22u8] + rest;
        assert(b.drop_first() =~= rest);
        assert(s =~= Seq::<u8>::empty());
    } else {
        let x = s[0];
        let tail = s.drop_first();
        assert(s =~= seq![x] + tail);
        lemma_json_escaped_front(x, tail);
        lemma_read_json_string(tail, rest);
        let after = json_escaped(tail) + seq![0x22u8] + rest;
        let e = json_escaped_byte(x);
        let b = json_escaped(s) + seq![0x22u8] + rest;
        assert(b =~= e + after);
        if x == 0x22 || x == 0x5C || x == 0x08 || x == 0x09 || x == 0x0A || x == 0x0C || x == 0x0D {
            assert(e.len() == 2);
            assert(b.skip(2) =~= after);
            assert(b[0] == 0x5C);
            assert(short_escape(b[1]) == Some(x));
            assert(seq![x] + tail =~= s);
        } else if x < 0x20 {
            lemma_hex_digit_byte_value(x / 16);
            lemma_hex_digit_byte_value(x % 16);
            assert(e.len() == 6);
            assert(b.skip(6) =~= after);
            assert(b[0] == 0x5C);
            assert(b[1] == 0x75);
            assert(short_escape(b[1]) is None);
            assert(((x / 16) * 16 + x % 16) as u8 == x);
            assert(seq![x] + tail =~= s);
        } else {
            assert(e =~= seq![x]);
            assert(b.drop_first() =~= after);
            assert(b[0] == x);
            assert(seq![x] + tail =~= s);
        }
    }
}

/// The three fields that a control message carries, as bytes: the action
/// name, the group id and the target peer id.
pub open spec fn control_parts(control: GroupControl) -> (Seq<u8>, Seq<u8>, Seq<u8>) {
    match control {
        GroupControl::AddMember { group_id, target_peer_id } => (
            vstd::utf8::encode_utf8("AddMember"@),
            vstd::utf8::encode_utf8(group_id@),
            vstd::utf8::encode_utf8(target_peer_id@),
        ),
        GroupControl::RemoveMember { group_id, target_peer_id } => (
            vstd::utf8::encode_utf8("RemoveMember"@),
            vstd::utf8::encode_utf8(group_id@),
            vstd::utf8::encode_utf8(target_peer_id@),
        ),
    }
}

proof fn lemma_read_field(x: Seq<u8>, rest: Seq<u8>)
    ensures
        (json_string(x) + rest).len() >= 1,
        (json_string(x) + rest)[0] == 0x22,
        read_json_string((json_string(x) + rest).skip(1)) == Some((x, rest)),
{
    lemma_read_json_string(x, rest);
    assert((json_string(x) + rest).skip(1) =~= json_escaped(x) + seq![0x22u8] + rest);
}

/// The message after its opening brace, nested from the right: the action
/// name, then the group id field, then the target field, then the braces.
spec fn message_tail(control: GroupControl) -> Seq<u8> {
    let (tag, g, t) = control_parts(control);
    json_string(tag) + (seq![0x3Au8, 0x7Bu8] + (json_string(vstd::utf8::encode_utf8("group_id"@))
        + (seq![0x3Au8] + (json_string(g) + (seq![0x2Cu8] + (json_string(
        vstd::utf8::encode_utf8("target_peer_id"@),
    ) + (seq![0x3Au8] + (json_string(t) + seq![0x7Du8, 0x7Du8]))))))))
}

proof fn lemma_message_tail(control: GroupControl)
    ensures
        spec_control_message(control) == seq![0x7Bu8] + message_tail(control),
{
    assert(spec_control_message(control) =~= seq![0x7Bu8] + message_tail(control));
}

/// The bytes that a control is signed over determine it: two controls with
/// the same message are the same action on the same group and the same
/// target, so a signature covers exactly one control.
pub proof fn lemma_control_message_determines_control(a: GroupControl, b: GroupControl)
    requires
        spec_control_message(a) == spec_control_message(b),
    ensures
        match (a, b) {
            (
                GroupControl::AddMember { group_id: ga, target_peer_id: ta },
                GroupControl::AddMember { group_id: gb, target_peer_id: tb },
            ) => ga@ == gb@ && ta@ == tb@,
            (
                GroupControl::RemoveMember { group_id: ga, target_peer_id: ta },
                GroupControl::RemoveMember { group_id: gb, target_peer_id: tb },
            ) => ga@ == gb@ && ta@ == tb@,
            _ => false,
        },
{
    lemma_control_message_injective(a, b);
    reveal_strlit("AddMember");
    reveal_strlit("RemoveMember");
    let add = vstd::utf8::encode_utf8("AddMember"@);
    let remove = vstd::utf8::encode_utf8("RemoveMember"@);
    vstd::utf8::encode_utf8_decode_utf8("AddMember"@);
    vstd::utf8::encode_utf8_decode_utf8("RemoveMember"@);
    assert("AddMember"@ != "RemoveMember"@) by {
        assert("AddMember"@[0] != "RemoveMember"@[0]);
    }
    assert(add != remove);
    match (a, b) {
        (
            GroupControl::AddMember { group_id: ga, target_peer_id: ta },
            GroupControl::AddMember { group_id: gb, target_peer_id: tb },
        ) => {
            vstd::utf8::encode_utf8_decode_utf8(ga@);
            vstd::utf8::encode_utf8_decode_utf8(gb@);
            vstd::utf8::encode_utf8_decode_utf8(ta@);
            vstd::utf8::encode_utf8_decode_utf8(tb@);
        },
        (
            GroupControl::RemoveMember { group_id: ga, target_peer_id: ta },
            GroupControl::RemoveMember { group_id: gb, target_peer_id: tb },
        ) => {
            vstd::utf8::encode_utf8_decode_utf8(ga@);
            vstd::utf8::encode_utf8_decode_utf8(gb@);
            vstd::utf8::encode_utf8_decode_utf8(ta@);
            vstd::utf8::encode_utf8_decode_utf8(tb@);
        },
        _ => {},
    }
}

/// The fields of two controls with the same message are the same bytes.
proof fn lemma_control_message_injective(a: GroupControl, b: GroupControl)
    requires
        spec_control_message(a) == spec_control_message(b),
    ensures
        control_parts(a) == control_parts(b),
{
    let (ta, ga, xa) = control_parts(a);
    let (tb, gb, xb) = control_parts(b);
    let kg = vstd::utf8::encode_utf8("group_id"@);
    let kt = vstd::utf8::encode_utf8("target_peer_id"@);
    let close = seq![0x7Du8, 0x7Du8];
    lemma_message_tail(a);
    lemma_message_tail(b);
    let ma = message_tail(a);
    let mb = message_tail(b);
    assert(ma =~= spec_control_message(a).skip(1));
    assert(mb =~= spec_control_message(b).skip(1));
    // The action name.
    let a1 = seq![0x3Au8, 0x7Bu8] + (json_string(kg) + (seq![0x3Au8] + (json_string(ga) + (seq![
        0x2Cu8,
    ] + (json_string(kt) + (seq![0x3Au8] + (json_string(xa) + close)))))));
    let b1 = seq![0x3Au8, 0x7Bu8] + (json_string(kg) + (seq![0x3Au8] + (json_string(gb) + (seq![
        0x2Cu8,
    ] + (json_string(kt) + (seq![0x3Au8] + (json_string(xb) + close)))))));
    lemma_read_field(ta, a1);
    lemma_read_field(tb, b1);
    assert(ta == tb && a1 == b1);
    // The group id key.
    let a2 = seq![0x3Au8] + (json_string(ga) + (seq![0x2Cu8] + (json_string(kt) + (seq![0x3Au8]
        + (json_string(xa) + close)))));
    let b2 = seq![0x3Au8] + (json_string(gb) + (seq![0x2Cu8] + (json_string(kt) + (seq![0x3Au8]
        + (json_string(xb) + close)))));
    assert(a1.skip(2) =~= json_string(kg) + a2);
    assert(b1.skip(2) =~= json_string(kg) + b2);
    lemma_read_field(kg, a2);
    lemma_read_field(kg, b2);
    assert(a2 == b2);
    // The group id.
    let a3 = seq![0x2Cu8] + (json_string(kt) + (seq![0x3Au8] + (json_string(xa) + close)));
    let b3 = seq![0x2Cu8] + (json_string(kt) + (seq![0x3Au8] + (json_string(xb) + close)));
    assert(a2.skip(1) =~= json_string(ga) + a3);
    assert(b2.skip(1) =~= json_string(gb) + b3);
    lemma_read_field(ga, a3);
    lemma_read_field(gb, b3);
    assert(ga == gb && a3 == b3);
    // The target key and the target.
    let a4 = seq![0x3Au8] + (json_string(xa) + close);
    let b4 = seq![0x3Au8] + (json_string(xb) + close);
    assert(a3.skip(1) =~= json_string(kt) + a4);
    assert(b3.skip(1) =~= json_string(kt) + b4);
    lemma_read_field(kt, a4);
    lemma_read_field(kt, b4);
    assert(a4 == b4);
    assert(a4.skip(1) =~= json_string(xa) + close);
    assert(b4.skip(1) =~= json_string(xb) + close);
    lemma_read_field(xa, close);
    lemma_read_field(xb, close);
    assert(xa == xb);
}

} // verus!
