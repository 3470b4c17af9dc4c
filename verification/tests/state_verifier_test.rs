use sha3::{Digest, Keccak256};

fn run(proof: &[u8], inputs: &[u8]) -> (u32, String) {
    let mut buf = vec![0u8; 256];
    let code = runt::state_verifier::verify(proof, inputs, &mut buf);
    let msg = String::from_utf8_lossy(&buf).trim_end_matches('\0').to_string();
    (code, msg)
}

#[test]
fn test_state_verifier_valid_leaf_proof() {
    let encoded_path = vec![0x20u8];
    let value = vec![0x42u8; 5];
    let leaf_rlp = rlp_encode_list(&[&encoded_path, &value]);
    let state_root = keccak256(&leaf_rlp);
    let proof = rlp_encode_list(&[&leaf_rlp]);

    let mut inputs = state_root.to_vec();
    inputs.extend_from_slice(&[]);

    let (result_code, error_msg) = run(&proof, &inputs);
    assert_eq!(
        result_code,
        runt::abi::VERIFY_VALID,
        "expected VALID, got code={result_code} error={error_msg}"
    );
}

#[test]
fn test_state_verifier_wrong_root() {
    let encoded_path = vec![0x20u8];
    let value = vec![0x42u8; 5];
    let leaf_rlp = rlp_encode_list(&[&encoded_path, &value]);
    let proof = rlp_encode_list(&[&leaf_rlp]);

    let wrong_root = [0xFFu8; 32];
    let inputs = wrong_root.to_vec();

    let (result_code, _error_msg) = run(&proof, &inputs);
    assert_eq!(
        result_code,
        runt::abi::VERIFY_INVALID,
        "expected INVALID for wrong root"
    );
}

#[test]
fn test_state_verifier_missing_node() {
    let proof = rlp_encode_list(&[]);
    let inputs = [0u8; 33].to_vec();

    let (result_code, _error_msg) = run(&proof, &inputs);
    assert_eq!(
        result_code,
        runt::abi::VERIFY_INVALID,
        "expected INVALID for empty proof"
    );
}

#[test]
fn test_state_verifier_messages() {
    let (code, msg) = run(&[0xc0], &[0u8; 10]);
    assert_eq!(code, runt::abi::VERIFY_INVALID);
    assert_eq!(msg, "public inputs too short: need state_root (32 bytes) + key");

    let (_, msg) = run(&[0x01], &[0u8; 32]);
    assert_eq!(msg, "failed to decode proof RLP");

    let (_, msg) = run(&[0xc0], &[0u8; 33]);
    assert_eq!(msg, "empty proof: no trie nodes");

    let leaf_rlp = rlp_encode_list(&[&[0x20u8], &[0x42u8; 5]]);
    let proof = rlp_encode_list(&[&leaf_rlp]);
    let (_, msg) = run(&proof, &[0xABu8; 32]);
    assert_eq!(msg, format!("missing trie node: {}", "ab".repeat(32)));
}

#[test]
fn test_state_verifier_leaf_mismatch_message() {
    let leaf_rlp = rlp_encode_list(&[&[0x20u8, 0x12], &[0x42u8; 5]]);
    let root = keccak256(&leaf_rlp);
    let proof = rlp_encode_list(&[&leaf_rlp]);
    let mut inputs = root.to_vec();
    inputs.push(0x13);
    let (code, msg) = run(&proof, &inputs);
    assert_eq!(code, runt::abi::VERIFY_INVALID);
    assert_eq!(msg, "leaf path mismatch: expected 12, got 13");
}

#[test]
fn test_state_verifier_truncated_message() {
    let mut buf = vec![0xEEu8; 8];
    let code = runt::state_verifier::verify(&[0xc0], &[0u8; 10], &mut buf);
    assert_eq!(code, runt::abi::VERIFY_INVALID);
    assert_eq!(&buf, b"public i");
}

#[test]
fn test_state_verifier_metadata() {
    let mut buf = vec![0u8; 512];
    let n = runt::state_verifier::metadata(&mut buf) as usize;
    let json = std::str::from_utf8(&buf[..n]).unwrap();
    assert!(json.starts_with("{\"proof_type_id\":\"state:eip1186\""));
    assert!(json.ends_with("}"));
    let mut small = vec![0u8; 4];
    assert_eq!(runt::state_verifier::metadata(&mut small), 4);
    assert_eq!(&small, b"{\"pr");
}

fn rlp_encode_list(items: &[&[u8]]) -> Vec<u8> {
    let mut payload = Vec::new();
    for item in items {
        payload.extend_from_slice(&rlp_encode_bytes(item));
    }
    let mut out = Vec::new();
    rlp_write_header(&mut out, 0xc0, payload.len());
    out.extend_from_slice(&payload);
    out
}

fn rlp_encode_bytes(data: &[u8]) -> Vec<u8> {
    if data.len() == 1 && data[0] < 0x80 {
        return data.to_vec();
    }
    let mut out = Vec::new();
    rlp_write_header(&mut out, 0x80, data.len());
    out.extend_from_slice(data);
    out
}

fn rlp_write_header(out: &mut Vec<u8>, offset: u8, len: usize) {
    if len < 55 {
        out.push(offset + len as u8);
    } else {
        let len_bytes = usize_to_bytes(len);
        out.push(offset + 55 + len_bytes.len() as u8);
        out.extend_from_slice(&len_bytes);
    }
}

fn usize_to_bytes(n: usize) -> Vec<u8> {
    if n == 0 {
        return vec![0x80];
    }
    let mut bytes = Vec::new();
    let mut val = n;
    while val > 0 {
        bytes.insert(0, (val & 0xFF) as u8);
        val >>= 8;
    }
    bytes
}

fn keccak256(data: &[u8]) -> [u8; 32] {
    let mut hasher = Keccak256::new();
    hasher.update(data);
    let result = hasher.finalize();
    let mut out = [0u8; 32];
    out.copy_from_slice(&result);
    out
}
