use cachet::envelope::{cachet, signed_region_start, Cachet, CachetError, Chain, ChainOutcome};
use sodiumoxide::crypto::sign::ed25519;

// A two-link chain for these tests: root key, leaf key, and the root's signature over
// the leaf key. It is self-delimiting, as its length is fixed.
const CHAIN_BYTES: usize = 128;

struct Fixture {
    leaf_skey: [u8; 64],
    root_key_store: Vec<[u8; 32]>,
    chain: Chain,
}

fn fixture() -> Fixture {
    sodiumoxide::init().unwrap();
    let (root_pkey, root_skey) = ed25519::gen_keypair();
    let (end_pkey, end_skey) = ed25519::gen_keypair();
    let key_sig = ed25519::sign_detached(&end_pkey.0, &root_skey);
    let mut encoded = Vec::new();
    encoded.extend_from_slice(&root_pkey.0);
    encoded.extend_from_slice(&end_pkey.0);
    encoded.extend_from_slice(&key_sig.to_bytes());
    Fixture {
        leaf_skey: end_skey.0,
        root_key_store: vec![root_pkey.0],
        chain: Chain::new(encoded, end_pkey.0),
    }
}

// Parses a chain from the front of `region`, trusting it only if its root is in `store`.
fn read_chain(region: &[u8], store: &[[u8; 32]]) -> ChainOutcome {
    if region.len() < CHAIN_BYTES {
        return ChainOutcome::Malformed;
    }
    let mut root = [0u8; 32];
    root.copy_from_slice(&region[0..32]);
    let mut leaf = [0u8; 32];
    leaf.copy_from_slice(&region[32..64]);
    let link_ok = match ed25519::Signature::from_bytes(&region[64..128]) {
        Ok(sig) => ed25519::verify_detached(&sig, &leaf, &ed25519::PublicKey(root)),
        Err(_) => false,
    };
    if !link_ok {
        return ChainOutcome::Malformed;
    }
    if !store.contains(&root) {
        return ChainOutcome::UntrustedRoot;
    }
    ChainOutcome::Trusted { consumed: CHAIN_BYTES, leaf_key: leaf }
}

fn parse(bytes: &[u8], store: &[[u8; 32]]) -> Result<Cachet, CachetError> {
    let start = signed_region_start(bytes)?;
    let outcome = read_chain(&bytes[start..], store);
    cachet(bytes, &outcome)
}

fn signed_test_data(f: &Fixture) -> Cachet {
    let test_data = b"test data".to_vec();
    let cachet_res = Cachet::new(test_data, &f.chain, &f.leaf_skey);
    assert!(cachet_res.is_ok());
    cachet_res.unwrap()
}

// Wire form of an envelope built by hand, with `region` signed as it stands.
fn hand_built(f: &Fixture, region: &[u8]) -> Vec<u8> {
    let sig = ed25519::sign_detached(region, &ed25519::SecretKey(f.leaf_skey));
    let mut v = vec![0x43, 0x54, 0x00, 0x01];
    v.extend_from_slice(&sig.to_bytes());
    v.extend_from_slice(region);
    v
}

#[test]
fn cachet_should_construct() {
    let f = fixture();
    let env = signed_test_data(&f);
    let ser_bytes = env.clone().as_bytes();
    let parsed_env_res = parse(&ser_bytes, &f.root_key_store);
    assert!(parsed_env_res.is_ok());
    let parsed_env = parsed_env_res.unwrap();
    assert_eq!(parsed_env.clone(), env);
}

#[test]
fn cachet_should_fail_to_parse_with_bad_tag() {
    let f = fixture();
    let env = signed_test_data(&f);
    let mut ser_bytes = env.clone().as_bytes();
    ser_bytes[0] = 0x00;
    let parsed_env_res = parse(&ser_bytes, &f.root_key_store);
    assert!(parsed_env_res.is_err());
}

#[test]
fn cachet_should_fail_to_parse_with_bad_trustchain() {
    let f = fixture();
    let env = signed_test_data(&f);
    let mut ser_bytes = env.clone().as_bytes();
    ser_bytes[73] = 0x00;
    ser_bytes[74] = 0x00;
    let parsed_env_res = parse(&ser_bytes, &f.root_key_store);
    assert!(parsed_env_res.is_err());
}

#[test]
fn cachet_should_fail_to_parse_with_untrusted_signature() {
    let f = fixture();
    let env = signed_test_data(&f);
    let mut ser_bytes = env.clone().as_bytes();
    ser_bytes[5] = 0x00;
    let parsed_env_res = parse(&ser_bytes, &f.root_key_store);
    assert!(parsed_env_res.is_err());
}

#[test]
fn parsed_payload_is_the_signed_payload() {
    let f = fixture();
    let env = signed_test_data(&f);
    let parsed = parse(&env.as_bytes(), &f.root_key_store).unwrap();
    assert_eq!(parsed.data(), b"test data");
    assert_eq!(parsed.trust_chain(), &f.chain);
    assert_eq!(parsed.signature(), env.signature());
}

#[test]
fn wire_form_layout() {
    let f = fixture();
    let env = signed_test_data(&f);
    let b = env.as_bytes();
    assert_eq!(b.len(), 4 + 64 + CHAIN_BYTES + 4 + 9);
    assert_eq!(&b[0..4], &[0x43, 0x54, 0x00, 0x01]);
    assert_eq!(&b[4..68], &env.signature()[..]);
    assert_eq!(&b[68..68 + CHAIN_BYTES], &f.chain.encoded[..]);
    assert_eq!(&b[68 + CHAIN_BYTES..72 + CHAIN_BYTES], &[0x00, 0x00, 0x00, 0x09]);
    assert_eq!(&b[72 + CHAIN_BYTES..], b"test data");
}

#[test]
fn signature_covers_chain_length_and_payload() {
    let f = fixture();
    let env = signed_test_data(&f);
    let b = env.as_bytes();
    let sig = ed25519::Signature::from_bytes(&env.signature()).unwrap();
    let leaf = ed25519::PublicKey(f.chain.leaf_key);
    assert!(ed25519::verify_detached(&sig, &b[68..], &leaf));
    assert!(!ed25519::verify_detached(&sig, &b[69..], &leaf));
}

#[test]
fn empty_payload_round_trips() {
    let f = fixture();
    let env = Cachet::new(Vec::new(), &f.chain, &f.leaf_skey).unwrap();
    let b = env.as_bytes();
    assert_eq!(b.len(), 4 + 64 + CHAIN_BYTES + 4);
    let parsed = parse(&b, &f.root_key_store).unwrap();
    assert_eq!(parsed, env);
    assert!(parsed.data().is_empty());
}

#[test]
fn each_tag_byte_changed_is_a_bad_tag() {
    let f = fixture();
    let b = signed_test_data(&f).as_bytes();
    for i in 0..2 {
        let mut t = b.clone();
        t[i] ^= 0x01;
        assert_eq!(parse(&t, &f.root_key_store), Err(CachetError::BadTag));
        let outcome = ChainOutcome::Trusted { consumed: CHAIN_BYTES, leaf_key: f.chain.leaf_key };
        assert_eq!(cachet(&t, &outcome), Err(CachetError::BadTag));
    }
}

#[test]
fn changed_chain_bytes_are_refused() {
    let f = fixture();
    let b = signed_test_data(&f).as_bytes();
    for i in 68..68 + CHAIN_BYTES {
        let mut t = b.clone();
        t[i] ^= 0x80;
        let r = parse(&t, &f.root_key_store);
        assert!(matches!(
            r,
            Err(CachetError::MalformedChain)
                | Err(CachetError::UntrustedRoot)
                | Err(CachetError::SignatureInvalid)
        ));
    }
}

#[test]
fn changed_signature_bytes_are_refused() {
    let f = fixture();
    let b = signed_test_data(&f).as_bytes();
    for i in 4..68 {
        let mut t = b.clone();
        t[i] ^= 0x01;
        assert_eq!(parse(&t, &f.root_key_store), Err(CachetError::SignatureInvalid));
    }
}

#[test]
fn changed_length_or_payload_bytes_are_refused() {
    let f = fixture();
    let b = signed_test_data(&f).as_bytes();
    for i in 68 + CHAIN_BYTES..b.len() {
        let mut t = b.clone();
        t[i] ^= 0x01;
        assert_eq!(parse(&t, &f.root_key_store), Err(CachetError::SignatureInvalid));
    }
}

#[test]
fn chain_with_untrusted_root_is_refused() {
    let f = fixture();
    let b = signed_test_data(&f).as_bytes();
    let (other_root, _) = ed25519::gen_keypair();
    let store = vec![other_root.0];
    assert_eq!(parse(&b, &store), Err(CachetError::UntrustedRoot));
    assert_eq!(cachet(&b, &ChainOutcome::UntrustedRoot), Err(CachetError::UntrustedRoot));
}

#[test]
fn parsing_twice_gives_equal_envelopes() {
    let f = fixture();
    let b = signed_test_data(&f).as_bytes();
    let copy = b.clone();
    let first = parse(&b, &f.root_key_store).unwrap();
    let second = parse(&b, &f.root_key_store).unwrap();
    assert_eq!(first, second);
    assert_eq!(b, copy);
}

#[test]
fn short_inputs_are_truncated() {
    let f = fixture();
    let b = signed_test_data(&f).as_bytes();
    assert_eq!(signed_region_start(&b[0..1]), Err(CachetError::Truncated));
    assert_eq!(signed_region_start(&b[0..3]), Err(CachetError::Truncated));
    assert_eq!(signed_region_start(&b[0..67]), Err(CachetError::Truncated));
    assert_eq!(signed_region_start(&b[0..68]), Ok(68));
    assert_eq!(parse(&b[0..67], &f.root_key_store), Err(CachetError::Truncated));
}

#[test]
fn other_version_is_unsupported() {
    let f = fixture();
    let mut b = signed_test_data(&f).as_bytes();
    b[3] = 0x02;
    assert_eq!(parse(&b, &f.root_key_store), Err(CachetError::UnsupportedVersion));
    b[3] = 0x01;
    b[2] = 0x01;
    assert_eq!(signed_region_start(&b), Err(CachetError::UnsupportedVersion));
}

#[test]
fn chain_cut_short_is_malformed() {
    let f = fixture();
    let b = signed_test_data(&f).as_bytes();
    assert_eq!(parse(&b[0..100], &f.root_key_store), Err(CachetError::MalformedChain));
    assert_eq!(cachet(&b, &ChainOutcome::Malformed), Err(CachetError::MalformedChain));
}

#[test]
fn chain_claiming_more_than_present_is_truncated() {
    let f = fixture();
    let b = signed_test_data(&f).as_bytes();
    let outcome = ChainOutcome::Trusted { consumed: b.len(), leaf_key: f.chain.leaf_key };
    assert_eq!(cachet(&b, &outcome), Err(CachetError::Truncated));
}

#[test]
fn signed_trailing_bytes_are_a_length_mismatch() {
    let f = fixture();
    let mut region = f.chain.encoded.clone();
    region.extend_from_slice(&[0x00, 0x00, 0x00, 0x02]);
    region.extend_from_slice(b"abc");
    let b = hand_built(&f, &region);
    assert_eq!(parse(&b, &f.root_key_store), Err(CachetError::DataLengthMismatch));
}

#[test]
fn signed_short_payload_is_truncated() {
    let f = fixture();
    let mut region = f.chain.encoded.clone();
    region.extend_from_slice(&[0x00, 0x00, 0x01, 0x00]);
    region.extend_from_slice(b"abc");
    let b = hand_built(&f, &region);
    assert_eq!(parse(&b, &f.root_key_store), Err(CachetError::Truncated));
    let mut region = f.chain.encoded.clone();
    region.extend_from_slice(&[0x00, 0x00]);
    let b = hand_built(&f, &region);
    assert_eq!(parse(&b, &f.root_key_store), Err(CachetError::Truncated));
}

#[test]
fn hand_built_envelope_is_read_exactly() {
    let f = fixture();
    let mut region = f.chain.encoded.clone();
    region.extend_from_slice(&[0x00, 0x00, 0x00, 0x03]);
    region.extend_from_slice(b"xyz");
    let b = hand_built(&f, &region);
    let parsed = parse(&b, &f.root_key_store).unwrap();
    assert_eq!(parsed.data(), b"xyz");
    assert_eq!(parsed.as_bytes(), b);
}
