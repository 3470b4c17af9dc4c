use ark_ec::AffineRepr;
use ark_ff::{BigInteger, PrimeField};
use runt::demo::verdict_label;
use runt::encode::{
    balance_be_bytes, leaf_path, nonce_be_bytes, rlp_account, rlp_encode_u64, rlp_header, rlp_item,
    rlp_list, rlp_receipt, rlp_u64, u128_be_bytes, u64_be_bytes, u64_from_be, usize_be_bytes,
};
use runt::proof_input::{decode_hex_proof, read_proof_bytes, ProofDocument};
use runt::rlp::{decode_rlp_list, read_rlp_item, read_rlp_payload};
use runt::trie::{walk_trie, Dialect, NodeMap};
use runt::encode::{be_minimal_bytes, be_minimal_bytes_u128};
use runt::json::read_proof_source;
use runt::listing::render_listing;
use runt::text::human_size;
use runt::trie::{bytes_to_nibbles, decode_hex_prefix};
use runt::abi::{CURVE_BLS12_381, CURVE_BN254, SIG_BLS, VERIFY_ERROR, VERIFY_INVALID, VERIFY_VALID};
use runt::composition::CompositionGraph;
use runt::crypto::{CryptoProvider, DefaultCryptoProvider};
use runt::host::HostState;
use runt::registry::{VerifierMetadata, VerifierRegistry};
use runt::storage::{InMemoryStorage, StorageProvider};
use runt::VerificationResult;

fn meta(id: &str, curve: &str, scheme: &str) -> VerifierMetadata {
    VerifierMetadata {
        proof_type_id: id.into(),
        version: "0.1.0".into(),
        curve: curve.into(),
        scheme: scheme.into(),
        supports_recursion: false,
        trusted_setup_required: false,
        max_proof_size: 0,
        description: format!("{id} verifier"),
    }
}

fn parts(r: &VerificationResult) -> (u32, String) {
    match r {
        VerificationResult::Valid => (VERIFY_VALID, String::new()),
        VerificationResult::Invalid(m) => (VERIFY_INVALID, m.clone()),
        VerificationResult::Error(m) => (VERIFY_ERROR, m.clone()),
    }
}

// --- hashing ---

#[test]
fn keccak256_of_empty_input_is_the_known_digest() {
    let h = DefaultCryptoProvider.hash("keccak256", b"");
    assert_eq!(
        h,
        hex::decode("c5d2460186f7233c927e7db2dcc703c0e500b653ca82273b7bfad8045d85a470").unwrap()
    );
}

#[test]
fn keccak256_of_hello_is_the_known_digest() {
    let h = DefaultCryptoProvider.keccak256(b"hello");
    assert_eq!(
        h.to_vec(),
        hex::decode("1c8aff950685c2ed4bc3174f3472287b56d9517b9c948127319a09a7a36deac8").unwrap()
    );
}

#[test]
fn sha256_of_hello_is_the_known_digest() {
    let h = DefaultCryptoProvider.hash("sha256", b"hello");
    assert_eq!(
        h,
        hex::decode("2cf24dba5fb0a30e26e83b2ac5b9e29e1b161e5c1fa7425e73043362938b9824").unwrap()
    );
    assert_eq!(DefaultCryptoProvider.sha256(b"hello").to_vec(), h);
}

#[test]
fn hash_names_are_case_sensitive() {
    assert!(DefaultCryptoProvider.hash("Keccak256", b"x").is_empty());
    assert!(DefaultCryptoProvider.hash("", b"x").is_empty());
}

// --- signatures and pairings ---

fn bls_keypair() -> (blst::min_pk::SecretKey, Vec<u8>) {
    let sk = blst::min_pk::SecretKey::key_gen(&[7u8; 32], &[]).expect("key gen");
    let pk = sk.sk_to_pk().to_bytes().to_vec();
    (sk, pk)
}

#[test]
fn bls_signature_over_the_message_is_accepted() {
    let (sk, pk) = bls_keypair();
    let msg = b"Runt verification demo";
    let sig = sk.sign(msg, b"BLS_SIG_BLS12381G2_XMD:SHA-256_SSWU_RO_POP_", &[]).to_bytes();
    assert!(DefaultCryptoProvider.verify_signature(SIG_BLS, msg, &sig, &pk));
    assert!(!DefaultCryptoProvider.verify_signature(SIG_BLS, b"wrong message", &sig, &pk));
}

#[test]
fn bls_signature_under_another_tag_is_rejected() {
    let (sk, pk) = bls_keypair();
    let msg = b"m";
    let sig = sk.sign(msg, b"BLS_SIG_BLS12381G2_XMD:SHA-256_SSWU_RO_NUL_", &[]).to_bytes();
    assert!(!DefaultCryptoProvider.verify_signature(SIG_BLS, msg, &sig, &pk));
}

#[test]
fn unknown_signature_scheme_is_rejected() {
    let (sk, pk) = bls_keypair();
    let msg = b"m";
    let sig = sk.sign(msg, b"BLS_SIG_BLS12381G2_XMD:SHA-256_SSWU_RO_POP_", &[]).to_bytes();
    assert!(!DefaultCryptoProvider.verify_signature(SIG_BLS + 1, msg, &sig, &pk));
}

#[test]
fn malformed_bls_inputs_are_rejected() {
    assert!(!DefaultCryptoProvider.verify_signature(SIG_BLS, b"m", &[0u8; 96], &[0u8; 48]));
    assert!(!DefaultCryptoProvider.verify_signature(SIG_BLS, b"m", &[], &[]));
}

#[test]
fn pairing_on_bls12_381_is_not_offered() {
    assert!(!DefaultCryptoProvider.pairing_check(CURVE_BLS12_381, &[0u8; 192]));
    assert!(!DefaultCryptoProvider.pairing_check(CURVE_BN254 + 5, &[]));
}

// --- host state ---

#[test]
fn host_state_hands_requests_to_its_providers() {
    let mut state: HostState = HostState::default();
    assert_eq!(
        state.hash("keccak256".into(), b"hello".to_vec()),
        DefaultCryptoProvider.hash("keccak256", b"hello")
    );
    assert!(!state.pairing_check(CURVE_BN254, vec![]));
    assert!(!state.verify_signature(2, vec![1], vec![2], vec![3]));
    assert_eq!(
        state.get_verification_key("vk".into()),
        Err("verification key not found: vk".to_string())
    );
    assert_eq!(
        state.get_public_params("pp".into()),
        Err("public params not found: pp".to_string())
    );
}

#[test]
fn host_state_reads_stored_material() {
    let mut storage = InMemoryStorage::new();
    storage.insert_verification_key("vk".into(), vec![9, 9]);
    storage.insert_public_params("pp".into(), vec![1]);
    let mut state = HostState::new(DefaultCryptoProvider, storage);
    assert_eq!(state.get_verification_key("vk".into()), Ok(vec![9, 9]));
    assert_eq!(state.get_public_params("pp".into()), Ok(vec![1]));
}

// --- storage ---

#[test]
fn storage_overwrite_keeps_the_last_value() {
    let mut storage = InMemoryStorage::default();
    storage.insert_verification_key("k".into(), vec![1]);
    storage.insert_verification_key("k".into(), vec![2, 3]);
    storage.insert_verification_key("other".into(), vec![4]);
    assert_eq!(storage.get_verification_key("k"), Ok(vec![2, 3]));
    assert_eq!(storage.get_verification_key("other"), Ok(vec![4]));
}

#[test]
fn storage_keeps_keys_and_params_apart() {
    let mut storage = InMemoryStorage::new();
    storage.insert_public_params("p".into(), vec![5]);
    assert_eq!(storage.get_public_params("p"), Ok(vec![5]));
    assert_eq!(
        storage.get_verification_key("p"),
        Err("verification key not found: p".to_string())
    );
    assert_eq!(
        storage.get_public_params("q"),
        Err("public params not found: q".to_string())
    );
}

// --- registry ---

#[test]
fn registry_finds_verifiers_by_capability() {
    let mut registry = VerifierRegistry::default();
    registry.register(meta("groth16:bn254", "bn254", "groth16"));
    registry.register(meta("state:eip1186", "", "mpt"));
    registry.register(meta("tx:receipt", "", "mpt"));
    let mpt: Vec<&str> = registry
        .find_by_capability("scheme", "mpt")
        .iter()
        .map(|m| m.proof_type_id.as_str())
        .collect();
    assert_eq!(mpt, vec!["state:eip1186", "tx:receipt"]);
    let bn: Vec<&str> = registry
        .find_by_capability("curve", "bn254")
        .iter()
        .map(|m| m.proof_type_id.as_str())
        .collect();
    assert_eq!(bn, vec!["groth16:bn254"]);
    assert!(registry.find_by_capability("curve", "").is_empty());
    assert!(registry.find_by_capability("scheme", "bn254").is_empty());
    assert!(registry.find_by_capability("other", "mpt").is_empty());
}

#[test]
fn registering_a_type_again_replaces_it() {
    let mut registry = VerifierRegistry::new();
    registry.register(meta("a", "c1", "s1"));
    let mut newer = meta("a", "c2", "s1");
    newer.version = "0.2.0".into();
    registry.register(newer);
    assert_eq!(registry.len(), 1);
    assert_eq!(registry.get("a").unwrap().version, "0.2.0");
    assert_eq!(registry.find_by_capability("curve", "c1").len(), 1);
    assert_eq!(registry.find_by_capability("curve", "c2").len(), 1);
    assert_eq!(registry.find_by_capability("scheme", "s1").len(), 2);
}

#[test]
fn registry_lists_every_type_once() {
    let mut registry = VerifierRegistry::new();
    registry.register(meta("a", "", ""));
    registry.register(meta("b", "", ""));
    registry.register(meta("a", "", ""));
    let mut ids: Vec<String> = registry.list().iter().map(|m| m.proof_type_id.clone()).collect();
    ids.sort();
    assert_eq!(ids, vec!["a".to_string(), "b".to_string()]);
    assert!(!registry.is_empty());
    assert!(registry.get("c").is_none());
}

// --- composition ---

#[test]
fn dependencies_keep_their_order() {
    let mut graph = CompositionGraph::new();
    assert!(graph.is_empty());
    graph.add_dependency("groth16:bn254", "state:eip1186");
    graph.add_dependency("groth16:bn254", "tx:receipt");
    graph.add_dependency("groth16:bn254", "state:eip1186");
    assert!(!graph.is_empty());
    assert_eq!(
        graph.dependencies_of("groth16:bn254"),
        vec!["state:eip1186", "tx:receipt", "state:eip1186"]
    );
    assert!(graph.dependencies_of("tx:receipt").is_empty());
    assert!(CompositionGraph::default().dependencies_of("x").is_empty());
}

// --- fuel and sandbox ---

#[test]
fn fuel_meter_tracks_budget_and_consumption() {
    let mut meter = runt::fuel::FuelMeter::new(100);
    assert_eq!(meter.consumed(), 0);
    assert_eq!(meter.add_fuel(50), 150);
    assert_eq!(meter.consume_fuel(Some(150), 40), Some(110));
    assert_eq!(meter.consumed(), 40);
    assert_eq!(meter.consume_fuel(Some(10), 11), None);
    assert_eq!(meter.consume_fuel(None, 1), None);
    assert_eq!(meter.consumed(), 40);
    assert_eq!(meter.consume_fuel(Some(10), 10), Some(0));
    assert_eq!(meter.consumed(), 50);
}

#[test]
fn sandbox_limits_memory_and_tables() {
    let mut config = runt::sandbox::SandboxConfig::default();
    assert_eq!(config.memory_limit_bytes, 64 * 1024 * 1024);
    assert_eq!(config.max_table_elements, 10_000);
    assert_eq!((config.max_instances, config.max_tables, config.max_memories), (1, 1, 1));
    assert!(config.memory_growing(0, 64 * 1024 * 1024, None));
    assert!(!config.memory_growing(0, 64 * 1024 * 1024 + 1, Some(usize::MAX)));
    assert!(config.table_growing(0, 10_000, None));
    assert!(!config.table_growing(10_000, 10_001, None));
    let small = runt::sandbox::SandboxConfig::new(4096);
    assert_eq!(small.memory_limit_bytes, 4096);
    assert_eq!(small.max_table_elements, 10_000);
}

// --- verdicts ---

#[test]
fn status_codes_become_verdicts() {
    assert_eq!(parts(&VerificationResult::from_u32(VERIFY_VALID, b"ignored")), (VERIFY_VALID, String::new()));
    assert_eq!(
        parts(&VerificationResult::from_u32(VERIFY_INVALID, b" bad root \0\0\0")),
        (VERIFY_INVALID, "bad root".to_string())
    );
    assert_eq!(
        parts(&VerificationResult::from_u32(VERIFY_INVALID, b"\0\0")),
        (VERIFY_INVALID, "proof verification failed".to_string())
    );
    assert_eq!(
        parts(&VerificationResult::from_u32(VERIFY_ERROR, b"\n oops\t")),
        (VERIFY_ERROR, "oops".to_string())
    );
    assert_eq!(
        parts(&VerificationResult::from_u32(77, b"")),
        (VERIFY_ERROR, "unknown verification error".to_string())
    );
    assert_eq!(
        parts(&VerificationResult::from_u32(VERIFY_INVALID, &[0x66, 0xff, 0x6f])),
        (VERIFY_INVALID, "f\u{fffd}o".to_string())
    );
}

#[test]
fn verdicts_for_missing_verifiers_and_failed_calls() {
    assert_eq!(
        parts(&VerificationResult::missing_verifier("zk:x")),
        (VERIFY_ERROR, "no verifier found for proof type: zk:x".to_string())
    );
    assert_eq!(
        parts(&VerificationResult::from_call(Err("trap".into()))),
        (VERIFY_ERROR, "verification failed: trap".to_string())
    );
    assert_eq!(
        parts(&VerificationResult::from_call(Ok((VERIFY_INVALID, b"short".to_vec())))),
        (VERIFY_INVALID, "short".to_string())
    );
}

#[test]
fn verdicts_in_words() {
    assert_eq!(VerificationResult::Valid.describe(), "valid");
    assert_eq!(VerificationResult::Invalid("r".into()).describe(), "invalid: r");
    assert_eq!(VerificationResult::Error("e".into()).describe(), "error: e");
}

// --- text ---

#[test]
fn sizes_are_shown_in_the_largest_unit() {
    assert_eq!(human_size(10_485_760), "10 MiB");
    assert_eq!(human_size(1_048_576), "1 MiB");
    assert_eq!(human_size(1_048_575), "1023 KiB");
    assert_eq!(human_size(8192), "8 KiB");
    assert_eq!(human_size(1024), "1 KiB");
    assert_eq!(human_size(1023), "1023 B");
    assert_eq!(human_size(0), "0 B");
}

#[test]
fn hex_rendering() {
    let mut h = [0u8; 32];
    h[0] = 0xab;
    h[31] = 0x01;
    let s = runt::text::hex32(&h);
    assert_eq!(s.len(), 64);
    assert!(s.starts_with("ab00"));
    assert!(s.ends_with("0001"));
    assert_eq!(runt::text::nibbles_hex(&[0, 9, 10, 15]), "09af");
    let mut d = String::from("n=");
    runt::text::push_decimal(&mut d, 1234567890);
    assert_eq!(d, "n=1234567890");
}

// --- RLP encoding ---

#[test]
fn numbers_encode_as_rlp_strings() {
    assert_eq!(rlp_u64(0), vec![0x80]);
    assert_eq!(rlp_u64(1), vec![0x01]);
    assert_eq!(rlp_u64(0x7f), vec![0x7f]);
    assert_eq!(rlp_u64(0x80), vec![0x81, 0x80]);
    assert_eq!(rlp_u64(1024), vec![0x82, 0x04, 0x00]);
    assert_eq!(rlp_u64(u64::MAX), [vec![0x88], vec![0xff; 8]].concat());
    for n in [0u64, 1, 5, 0x7f, 0x80, 0xff, 0x100, 21000, 1 << 40, u64::MAX] {
        assert_eq!(rlp_u64(n), rlp_encode_u64(n));
    }
}

#[test]
fn strings_and_lists_encode_as_rlp() {
    assert_eq!(rlp_item(&[]), vec![0x80]);
    assert_eq!(rlp_item(&[0x7f]), vec![0x7f]);
    assert_eq!(rlp_item(&[0x80]), vec![0x81, 0x80]);
    assert_eq!(rlp_item(b"dog"), vec![0x83, b'd', b'o', b'g']);
    let long = [0x61u8; 56];
    let enc = rlp_item(&long);
    assert_eq!(&enc[..2], &[0xb8, 56]);
    assert_eq!(enc.len(), 58);
    let edge = [0x61u8; 55];
    assert_eq!(rlp_item(&edge)[0], 0xb7);
    assert_eq!(rlp_item(&edge).len(), 56);
    let short = [0x61u8; 54];
    assert_eq!(rlp_item(&short)[0], 0x80 + 54);
    assert_eq!(rlp_list(&[]), vec![0xc0]);
    let pets: [&[u8]; 2] = [b"cat", b"dog"];
    assert_eq!(rlp_list(&pets), vec![0xc8, 0x83, b'c', b'a', b't', 0x83, b'd', b'o', b'g']);
    let big = [0u8; 1024];
    let one: [&[u8]; 1] = [&big];
    let l = rlp_list(&one);
    assert_eq!(&l[..3], &[0xf9, 0x04, 0x03]);
    assert_eq!(&l[3..6], &[0xb9, 0x04, 0x00]);
}

#[test]
fn length_bytes_and_headers() {
    assert!(usize_be_bytes(0).is_empty());
    assert_eq!(usize_be_bytes(0x0403), vec![0x04, 0x03]);
    let mut out = vec![1];
    rlp_header(&mut out, 0xc0, 3);
    assert_eq!(out, vec![1, 0xc3]);
    let mut out = Vec::new();
    rlp_header(&mut out, 0x80, 300);
    assert_eq!(out, vec![0xb9, 0x01, 0x2c]);
    let mut out = Vec::new();
    rlp_header(&mut out, 0x80, 55);
    assert_eq!(out, vec![0xb7]);
    let mut out = Vec::new();
    rlp_header(&mut out, 0x80, 3);
    assert_eq!(out, vec![0x83]);
    let mut out = Vec::new();
    rlp_header(&mut out, 0xc0, 56);
    assert_eq!(out, vec![0xf8, 0x38]);
    let mut out = Vec::new();
    rlp_header(&mut out, 0xc0, 300);
    assert_eq!(out, vec![0xf9, 0x01, 0x2c]);
}

#[test]
fn account_fields_encode_without_leading_zeros() {
    assert_eq!(nonce_be_bytes(0), vec![0x80]);
    assert_eq!(nonce_be_bytes(1), vec![0x01]);
    assert_eq!(nonce_be_bytes(0x1234), vec![0x82, 0x12, 0x34]);
    assert_eq!(balance_be_bytes(0), vec![0x80]);
    assert_eq!(
        balance_be_bytes(1_000_000_000_000_000_000),
        vec![0x88, 0x0d, 0xe0, 0xb6, 0xb3, 0xa7, 0x64, 0x00, 0x00]
    );
    assert_eq!(balance_be_bytes(u128::MAX), [vec![0x90], vec![0xff; 16]].concat());
    let root = [0x11u8; 32];
    let code = [0x22u8; 32];
    let n = be_minimal_bytes(3);
    let b = be_minimal_bytes_u128(500);
    assert_eq!((n.clone(), b.clone()), (vec![3], vec![0x01, 0xf4]));
    let fields: [&[u8]; 4] = [&n, &b, &root, &code];
    assert_eq!(rlp_account(3, 500, &root, &code), rlp_list(&fields));
    for x in [0u64, 1, 0x7f, 0x80, 1024, 21000, u64::MAX] {
        assert_eq!(nonce_be_bytes(x), rlp_u64(x));
    }
    assert_eq!(nonce_be_bytes(0x80), vec![0x81, 0x80]);
    assert_eq!(nonce_be_bytes(1024), vec![0x82, 0x04, 0x00]);
}

#[test]
fn accounts_are_lists_of_four_strings() {
    let zero = [0u8; 32];
    let account = rlp_account(1, 1_000_000_000_000_000_000u128, &zero, &zero);
    let items = decode_rlp_list(&account).expect("decodes");
    assert_eq!(
        items,
        vec![
            vec![0x01],
            vec![0x0d, 0xe0, 0xb6, 0xb3, 0xa7, 0x64, 0x00, 0x00],
            vec![0u8; 32],
            vec![0u8; 32],
        ]
    );
    let empty = rlp_account(0, 0, &zero, &zero);
    assert_eq!(&empty[..3], &[0xf8, 0x44, 0x80]);
    assert_eq!(decode_rlp_list(&empty).unwrap()[..2], [Vec::<u8>::new(), Vec::<u8>::new()]);
}

#[test]
fn receipts_encode_their_fields_as_strings() {
    let bloom = [0u8; 256];
    let r = rlp_receipt(1, 21000, &[], &bloom);
    let payload = [rlp_item(&[1]), rlp_u64(21000), rlp_item(&bloom), vec![0xc0]].concat();
    assert_eq!(payload.len(), 264);
    assert_eq!(r, [vec![0xf9, 0x01, 0x08], payload].concat());
    let (item, n) = read_rlp_item(&r).expect("reads as one item");
    assert_eq!((item.len(), n), (r.len(), r.len()));
    let fields = decode_rlp_list(&r).expect("a list of strings and a list");
    assert_eq!(fields.len(), 4);
    assert_eq!(fields[0], vec![1]);
    assert_eq!(fields[1], vec![0x52, 0x08]);
    assert_eq!(fields[2], vec![0u8; 256]);
    assert_eq!(fields[3], vec![0xc0]);
}

#[test]
fn numbers_read_back_from_big_endian_bytes() {
    assert_eq!(u64_from_be(&[0, 0, 0, 0, 0, 0, 1, 2]), 0x102);
    assert_eq!(u64_from_be(&[1, 2]), 0x102);
    assert_eq!(u64_from_be(&[]), 0);
    assert_eq!(u64_from_be(&[1, 0, 0, 0, 0, 0, 0, 0, 9]), 1 << 56);
    assert_eq!(u64_be_bytes(0x0102), vec![0, 0, 0, 0, 0, 0, 1, 2]);
    assert_eq!(u64_from_be(&u64_be_bytes(123_456_789)), 123_456_789);
    assert_eq!(u128_be_bytes(1)[15], 1);
    assert_eq!(u128_be_bytes(1 << 120)[0], 1);
}

#[test]
fn leaf_paths_use_hex_prefix_encoding() {
    assert_eq!(leaf_path(&[]), vec![0x20]);
    assert_eq!(leaf_path(&[1, 2, 3, 4]), vec![0x20, 0x12, 0x34]);
    assert_eq!(leaf_path(&[0xf, 1, 2]), vec![0x3f, 0x12]);
    assert_eq!(leaf_path(&[7]), vec![0x37]);
}

// --- RLP decoding and the trie ---

#[test]
fn encoded_lists_decode_back() {
    let long = vec![0x42u8; 300];
    let items: [&[u8]; 4] = [b"", b"\x05", b"dog", &long];
    let enc = rlp_list(&items);
    let decoded = decode_rlp_list(&enc).expect("decodes");
    assert_eq!(decoded, vec![vec![], vec![5], b"dog".to_vec(), long.clone()]);
}

#[test]
fn malformed_lists_do_not_decode() {
    assert!(decode_rlp_list(&[]).is_none());
    assert!(decode_rlp_list(&[0x83, 1, 2, 3]).is_none());
    assert!(decode_rlp_list(&[0xc3, 0x83, 1]).is_none());
    assert!(decode_rlp_list(&[0xc1, 0xf8]).is_none());
    assert!(decode_rlp_list(&[0xf8, 0x05, 1]).is_none());
    assert!(read_rlp_item(&[]).is_none());
    assert_eq!(read_rlp_item(&[0x05, 0x06]), Some((&[0x05u8][..], 1)));
}

#[test]
fn nested_lists_are_read_as_header_and_payload() {
    let data = [0xc2, 0x01, 0x02, 0x03];
    assert_eq!(read_rlp_item(&data), Some((&data[..3], 3)));
    let data = [0xc1, 0x01, 0xaa, 0xbb, 0xcc];
    assert_eq!(read_rlp_item(&data), Some((&data[..2], 2)));
    let long = [vec![0xf8, 0x38], vec![0x01; 56]].concat();
    assert_eq!(read_rlp_item(&long), Some((&long[..], 58)));
    let with_tail = [long.clone(), vec![0x99]].concat();
    assert_eq!(read_rlp_item(&with_tail), Some((&with_tail[..58], 58)));
    let edge = [vec![0xf7], vec![0x01; 55]].concat();
    assert_eq!(read_rlp_payload(&edge, 0xc0), Some((&edge[1..56], 56)));
    let string_edge = [vec![0xb7], vec![0x02; 55]].concat();
    assert_eq!(read_rlp_item(&string_edge), Some((&string_edge[1..], 56)));
}

#[test]
fn leaves_match_only_the_whole_rest_of_the_key() {
    let leaf = [0xc2, 0x20, 0x42];
    let mut map = NodeMap::new();
    map.insert([0x07; 32], &leaf);
    assert!(walk_trie(&map, [0x07; 32], &[0x1, 0x2], Dialect::Account).is_err());
    assert_eq!(walk_trie(&map, [0x07; 32], &[], Dialect::Account), Ok(vec![0x42]));
    assert_eq!(
        walk_trie(&map, [0x07; 32], &[0x1, 0x2], Dialect::Account),
        Err("leaf path mismatch: expected , got 12".to_string())
    );
    assert_eq!(
        walk_trie(&map, [0x07; 32], &[0x3], Dialect::Receipt),
        Err("path mismatch".to_string())
    );
}

#[test]
fn a_missing_root_is_reported_for_any_key() {
    let map = NodeMap::new();
    let root = [0xff; 32];
    let expected = format!("missing trie node: {}", "ff".repeat(32));
    assert_eq!(walk_trie(&map, root, &[0x99, 0x17], Dialect::Account), Err(expected.clone()));
    assert_eq!(walk_trie(&map, root, &[1, 2], Dialect::Account), Err(expected));
    assert_eq!(
        walk_trie(&map, root, &[0x99], Dialect::Receipt),
        Err("missing trie node".to_string())
    );
}

#[test]
fn nibbles_and_hex_prefix_paths() {
    assert_eq!(bytes_to_nibbles(&[0xab, 0x01]), vec![0xa, 0xb, 0x0, 0x1]);
    assert!(bytes_to_nibbles(&[]).is_empty());
    assert_eq!(decode_hex_prefix(0x20, &[0x12]), (vec![1, 2], false));
    assert_eq!(decode_hex_prefix(0x3f, &[0x12]), (vec![0xf, 1, 2], true));
    assert_eq!(decode_hex_prefix(0x00, &[]), (vec![], false));
    assert_eq!(decode_hex_prefix(0x15, &[]), (vec![5], true));
}

// --- sample proofs ---

#[test]
fn sample_state_proof_is_accepted() {
    let (proof, inputs) = runt::demo::build_state_proof(b"0xAlice", 1, 1_000_000_000_000_000_000);
    assert_eq!(inputs.len(), 64);
    let mut buf = [0u8; 256];
    assert_eq!(runt::state_verifier::verify(&proof, &inputs, &mut buf), VERIFY_VALID);
    assert_eq!(runt::state_verifier::verify_state_proof(&proof, &inputs), Ok(()));
}

#[test]
fn sample_state_proof_for_another_key_is_rejected() {
    let (proof, mut inputs) = runt::demo::build_state_proof(b"0xAlice", 0, 0);
    let other = DefaultCryptoProvider.keccak256(b"0xBob");
    inputs.truncate(32);
    inputs.extend_from_slice(&other);
    let r = runt::state_verifier::verify_state_proof(&proof, &inputs);
    assert!(r.unwrap_err().starts_with("leaf path mismatch: expected "));
}

#[test]
fn sample_receipt_proof_is_accepted() {
    let (proof, inputs) = runt::demo::build_receipt_proof(5, 1, 21000);
    assert_eq!(inputs.len(), 40);
    assert_eq!(&inputs[32..], &5u64.to_be_bytes());
    assert_eq!(runt::tx_verifier::verify_receipt_proof(&proof, &inputs), Ok(()));
    let mut buf = [0u8; 64];
    assert_eq!(runt::tx_verifier::verify(&proof, &inputs, &mut buf), VERIFY_VALID);
    let mut wrong = inputs.clone();
    wrong[39] = 6;
    assert_eq!(
        runt::tx_verifier::verify_receipt_proof(&proof, &wrong),
        Err("path mismatch".to_string())
    );
}

#[test]
fn verdict_labels() {
    assert_eq!(verdict_label(VERIFY_VALID), "✅ VALID");
    assert_eq!(verdict_label(VERIFY_INVALID), "❌ INVALID");
    assert_eq!(verdict_label(VERIFY_ERROR), "⚠️  ERROR");
    assert_eq!(verdict_label(42), "⚠️  ERROR");
}

// --- proof files ---

#[test]
fn hex_proofs_decode_with_or_without_prefix() {
    assert_eq!(decode_hex_proof("0x0a0B"), Ok(vec![0x0a, 0x0b]));
    assert_eq!(decode_hex_proof("ff00"), Ok(vec![0xff, 0x00]));
    assert_eq!(decode_hex_proof(""), Ok(vec![]));
    assert_eq!(decode_hex_proof("0x"), Ok(vec![]));
    assert!(decode_hex_proof("0xabc").unwrap_err().starts_with("invalid hex proof: "));
    assert!(decode_hex_proof("zz").unwrap_err().starts_with("invalid hex proof: "));
    assert!(decode_hex_proof("0X00").unwrap_err().starts_with("invalid hex proof: "));
}

#[test]
fn proof_files_are_read_by_shape() {
    let raw = b"raw file".to_vec();
    assert_eq!(read_proof_bytes(raw.clone(), None), Ok(raw.clone()));
    assert_eq!(
        read_proof_bytes(raw.clone(), Some(ProofDocument::Array(vec![Some(1), None, Some(258)]))),
        Ok(vec![1, 0, 2])
    );
    let hex_doc = ProofDocument::Object { proof: Some("0xdead".into()), proof_bytes: Some(Some(vec![Some(9)])) };
    assert_eq!(read_proof_bytes(raw.clone(), Some(hex_doc)), Ok(vec![0xde, 0xad]));
    let bad_hex = ProofDocument::Object { proof: Some("0xgg".into()), proof_bytes: None };
    assert!(read_proof_bytes(raw.clone(), Some(bad_hex)).unwrap_err().starts_with("invalid hex proof: "));
    let bytes_doc = ProofDocument::Object { proof: None, proof_bytes: Some(Some(vec![Some(7), Some(8)])) };
    assert_eq!(read_proof_bytes(raw.clone(), Some(bytes_doc)), Ok(vec![7, 8]));
    let not_array = ProofDocument::Object { proof: None, proof_bytes: Some(None) };
    assert_eq!(read_proof_bytes(raw.clone(), Some(not_array)), Ok(vec![]));
    let neither = ProofDocument::Object { proof: None, proof_bytes: None };
    assert_eq!(read_proof_bytes(raw.clone(), Some(neither)), Ok(raw.clone()));
    assert_eq!(read_proof_bytes(raw.clone(), Some(ProofDocument::Other)), Ok(raw));
}

// --- the simple verifiers ---

#[test]
fn placeholder_verifier_always_errs() {
    let mut buf = [0u8; 64];
    assert_eq!(runt::hello_verifier::verify(&[1], &[2], &mut buf), VERIFY_ERROR);
    assert!(buf.starts_with(b"not implemented: placeholder verifier"));
    let mut tiny = [0u8; 3];
    assert_eq!(runt::hello_verifier::verify(&[], &[], &mut tiny), VERIFY_ERROR);
    assert_eq!(&tiny, b"not");
    let mut m = [0u8; 512];
    let n = runt::hello_verifier::metadata(&mut m) as usize;
    assert!(std::str::from_utf8(&m[..n]).unwrap().contains("\"proof_type_id\":\"hello:dummy\""));
}

#[test]
fn groth16_verifier_checks_length_then_pairing() {
    let r = runt::groth16_verifier::verify_groth16(&[0u8; 100], &[]);
    assert_eq!(r, Err("Groth16 proof too short: 100 bytes (min 128)".to_string()));
    let r = runt::groth16_verifier::verify_groth16(&[0u8; 128], &[]);
    assert_eq!(r, Err("Groth16 pairing check failed".to_string()));
    let mut buf = [0u8; 64];
    assert_eq!(runt::groth16_verifier::verify(&[0u8; 5], &[], &mut buf), VERIFY_INVALID);
    assert!(buf.starts_with(b"Groth16 proof too short: 5 bytes (min 128)"));
    let mut m = [0u8; 512];
    let n = runt::groth16_verifier::metadata(&mut m) as usize;
    assert!(std::str::from_utf8(&m[..n]).unwrap().contains("\"max_proof_size\":8192"));
}

fn fq(f: &ark_bn254::Fq) -> Vec<u8> {
    let be = f.into_bigint().to_bytes_be();
    let mut out = vec![0u8; 32 - be.len()];
    out.extend_from_slice(&be);
    out
}

#[test]
fn groth16_verifier_accepts_a_pairing_identity() {
    let g1 = ark_bn254::G1Affine::generator();
    let g2 = ark_bn254::G2Affine::generator();
    let neg = -g1;
    let mut proof = Vec::new();
    for p in [g1, neg] {
        proof.extend(fq(&p.x));
        proof.extend(fq(&p.y));
        proof.extend(fq(&g2.x.c0));
        proof.extend(fq(&g2.x.c1));
        proof.extend(fq(&g2.y.c0));
        proof.extend(fq(&g2.y.c1));
    }
    assert_eq!(runt::groth16_verifier::verify_groth16(&proof, &[]), Ok(()));
    let mut buf = [0u8; 8];
    assert_eq!(runt::groth16_verifier::verify(&proof, &[], &mut buf), VERIFY_VALID);
    assert_eq!(buf, [0u8; 8]);
}

#[test]
fn consensus_verifier_checks_shape_first() {
    assert_eq!(
        parts(&runt::consensus_verifier::verify(vec![], vec![0; 64], vec![])),
        (VERIFY_ERROR, "empty consensus proof".to_string())
    );
    assert_eq!(
        parts(&runt::consensus_verifier::verify(vec![1], vec![0; 63], vec![])),
        (
            VERIFY_ERROR,
            "public inputs: expected trusted_header_root (32 bytes) + update_slot (8 bytes)".to_string()
        )
    );
    assert_eq!(
        parts(&runt::consensus_verifier::verify(vec![1], vec![0; 64], vec![])),
        (VERIFY_ERROR, "BLS pairing verification not yet implemented".to_string())
    );
    let m = runt::consensus_verifier::metadata();
    assert_eq!(m.proof_type_id, "consensus:altair");
    assert_eq!(m.curve, "bls12-381");
    assert_eq!(m.max_proof_size, 1_048_576);
}


#[test]
fn state_proof_refuses_keys_that_extend_the_leaf_key() {
    let (proof, inputs) = runt::demo::build_state_proof(b"0xCarol", 2, 3);
    let mut longer = inputs.clone();
    longer.push(0x42);
    assert!(runt::state_verifier::verify_state_proof(&proof, &longer)
        .unwrap_err()
        .starts_with("leaf path mismatch: expected "));
    let shorter = &inputs[..inputs.len() - 1];
    assert_eq!(
        runt::state_verifier::verify_state_proof(&proof, shorter),
        Err("leaf path longer than remaining key".to_string())
    );
}

fn receipt_leaf_proof(tx_index: u64, value: &[u8]) -> (Vec<u8>, [u8; 32]) {
    let key = rlp_u64(tx_index);
    let path = leaf_path(&bytes_to_nibbles(&key));
    let fields: [&[u8]; 2] = [&path, value];
    let leaf = rlp_list(&fields);
    let root = DefaultCryptoProvider.keccak256(&leaf);
    let nodes: [&[u8]; 1] = [&leaf];
    (rlp_list(&nodes), root)
}

#[test]
fn receipt_proof_is_accepted_for_its_index_only() {
    let value = [0x83, b'a', b'b', b'c'];
    for index in [0u64, 1, 0x7f, 0x80, 300, 1 << 33] {
        let (proof, root) = receipt_leaf_proof(index, &value);
        for other in [0u64, 1, 0x7f, 0x80, 0x81, 300, 301, 1 << 33] {
            let mut inputs = root.to_vec();
            inputs.extend_from_slice(&other.to_be_bytes());
            let r = runt::tx_verifier::verify_receipt_proof(&proof, &inputs);
            assert_eq!(r.is_ok(), other == index, "index {index}, other {other}: {r:?}");
        }
    }
}

#[test]
fn receipt_data_must_match_the_expected_prefix() {
    let value = [0x83, b'a', b'b', b'c'];
    let (proof, root) = receipt_leaf_proof(9, &value);
    let mut inputs = root.to_vec();
    inputs.extend_from_slice(&9u64.to_be_bytes());
    let mut good = inputs.clone();
    good.extend_from_slice(&[0x83, b'a']);
    assert_eq!(runt::tx_verifier::verify_receipt_proof(&proof, &good), Ok(()));
    let mut bad = inputs.clone();
    bad.extend_from_slice(&[0x83, b'x']);
    assert_eq!(
        runt::tx_verifier::verify_receipt_proof(&proof, &bad),
        Err("receipt data mismatch with expected".to_string())
    );
    let mut too_long = inputs.clone();
    too_long.extend_from_slice(&[0u8; 10]);
    assert_eq!(runt::tx_verifier::verify_receipt_proof(&proof, &too_long), Ok(()));
    assert_eq!(
        runt::tx_verifier::verify_receipt_proof(&proof, &inputs[..39]),
        Err("public inputs too short: need receipts_root (32 bytes) + tx_index (8 bytes BE)".to_string())
    );
}

#[test]
fn refusals_read_back_through_the_error_buffer() {
    let mut buf = [0u8; 256];
    let code = runt::state_verifier::verify(&[0xc0], &[0u8; 40], &mut buf);
    assert_eq!(
        parts(&VerificationResult::from_u32(code, &buf)),
        (VERIFY_INVALID, "empty proof: no trie nodes".to_string())
    );
    let mut buf = [0u8; 1024];
    let code = runt::groth16_verifier::verify(&[1, 2, 3], &[], &mut buf);
    assert_eq!(
        parts(&VerificationResult::from_u32(code, &buf)),
        (VERIFY_INVALID, "Groth16 proof too short: 3 bytes (min 128)".to_string())
    );
    let mut buf = [0u8; 64];
    let code = runt::hello_verifier::verify(&[], &[], &mut buf);
    assert_eq!(
        parts(&VerificationResult::from_u32(code, &buf)),
        (VERIFY_ERROR, "not implemented: placeholder verifier".to_string())
    );
}

#[test]
fn listing_shows_each_verifier() {
    let empty: Vec<&VerifierMetadata> = vec![];
    assert_eq!(
        render_listing(0, &empty),
        "WASM components loaded: 0\nVerifiers registered: 0\n\nNo verifiers loaded. Build verifier components with:\n  cargo build --target wasm32-unknown-unknown --release -p hello-verifier\n  wasm-tools component new target/wasm32-unknown-unknown/release/hello_verifier.wasm \\\n    --adapt default -o target/verifiers/hello-verifier.wasm\n"
    );
    let mut g = meta("groth16:bn254", "bn254", "groth16");
    g.trusted_setup_required = true;
    g.max_proof_size = 8192;
    let s = meta("state:eip1186", "", "mpt");
    let text = render_listing(2, &vec![&g, &s]);
    let expected = format!(
        "WASM components loaded: 2\nVerifiers registered: 2\n\n  {:30} v0.1.0 (groth16)\n    groth16:bn254 verifier\n    curve: bn254\n    trusted setup required\n    max proof size: 8 KiB\n\n  {:30} v0.1.0 (mpt)\n    state:eip1186 verifier\n\n",
        "groth16:bn254", "state:eip1186"
    );
    assert_eq!(text, expected);
    let long_id = meta("a-proof-type-identifier-longer-than-thirty", "", "x");
    assert!(render_listing(1, &vec![&long_id])
        .contains("\n  a-proof-type-identifier-longer-than-thirty v0.1.0 (x)\n"));
}

#[test]
fn trimming_removes_unicode_white_space() {
    assert_eq!(
        parts(&VerificationResult::from_u32(VERIFY_INVALID, "\u{3000}bad\u{a0}\u{2028}\0".as_bytes())),
        (VERIFY_INVALID, "bad".to_string())
    );
    assert_eq!(
        parts(&VerificationResult::from_u32(VERIFY_ERROR, "\u{200b}x".as_bytes())),
        (VERIFY_ERROR, "\u{200b}x".to_string())
    );
}

#[test]
fn json_proof_files_are_read_by_shape() {
    let read = |text: &str| read_proof_source(text.as_bytes().to_vec(), true);
    assert_eq!(read("[1, 2, 300, -1, \"x\", 2.5]"), Ok(vec![1, 2, 44, 0, 0, 0]));
    assert_eq!(read("{\"proof\": \"0xdead\", \"proof_bytes\": [9]}"), Ok(vec![0xde, 0xad]));
    assert!(read("{\"proof\": \"0xgg\"}").unwrap_err().starts_with("invalid hex proof: "));
    assert_eq!(read("{\"proof\": 5, \"proof_bytes\": [7, 8]}"), Ok(vec![7, 8]));
    assert_eq!(read("{\"proof_bytes\": \"ab\"}"), Ok(vec![]));
    let other = "{\"root\": 1}";
    assert_eq!(read(other), Ok(other.as_bytes().to_vec()));
    assert_eq!(read("\"text\""), Ok(b"\"text\"".to_vec()));
    assert!(read("[1, 2").is_err());
    assert!(read("").is_err());
    assert_eq!(read_proof_source(b"[1, 2".to_vec(), false), Ok(b"[1, 2".to_vec()));
}

#[test]
fn requests_go_to_the_first_verifier_of_their_type() {
    let a = meta("state:eip1186", "", "mpt");
    let b = meta("tx:receipt", "", "mpt");
    let c = meta("state:eip1186", "", "other");
    let loaded = vec![&a, &b, &c];
    assert_eq!(runt::routing::find_verifier(&loaded, "state:eip1186"), Some(0));
    assert_eq!(runt::routing::find_verifier(&loaded, "tx:receipt"), Some(1));
    assert_eq!(runt::routing::find_verifier(&loaded, "zk:x"), None);
    assert_eq!(runt::routing::find_verifier(&vec![], "tx:receipt"), None);
}

#[test]
fn capability_lists_hold_each_distinct_registration_once() {
    let mut registry = VerifierRegistry::new();
    registry.register(meta("a", "bn254", "groth16"));
    registry.register(meta("b", "bls12-381", "groth16"));
    registry.register(meta("c", "bn254", "plonk"));
    let ids = |c: &str, v: &str| -> Vec<String> {
        registry.find_by_capability(c, v).iter().map(|m| m.proof_type_id.clone()).collect()
    };
    assert_eq!(ids("curve", "bn254"), vec!["a", "c"]);
    assert_eq!(ids("scheme", "groth16"), vec!["a", "b"]);
    assert_eq!(ids("scheme", "plonk"), vec!["c"]);
    assert!(ids("curve", "groth16").is_empty());
    // A proof type registered again keeps its earlier listing as well.
    let mut again = VerifierRegistry::new();
    again.register(meta("a", "", "mpt"));
    again.register(meta("a", "", "zk"));
    let mpt: Vec<String> = again.find_by_capability("scheme", "mpt").iter().map(|m| m.scheme.clone()).collect();
    assert_eq!(mpt, vec!["zk"]);
}
