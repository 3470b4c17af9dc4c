use sha3::{Digest, Keccak256};

fn run(proof: &[u8], inputs: &[u8]) -> (u32, String) {
    let mut buf = vec![0u8; 256];
    let code = runt::tx_verifier::verify(proof, inputs, &mut buf);
    let msg = String::from_utf8_lossy(&buf).trim_end_matches('\0').to_string();
    (code, msg)
}

#[test]
fn test_tx_verifier_valid_receipt_proof() {
    let tx_index = 5u64;
    let receipt_data = vec![0x01u8, 0x02, 0x03];
    let key = rlp_encode_u64(tx_index);
    let encoded_path = leaf_path(&bytes_to_nibbles(&key));
    let leaf_rlp = rlp_encode_list(&[&encoded_path, &receipt_data]);
    let receipts_root = keccak256(&leaf_rlp);
    let proof = rlp_encode_list(&[&leaf_rlp]);

    let mut inputs = receipts_root.to_vec();
    inputs.extend_from_slice(&tx_index.to_be_bytes());

    let (code, msg) = run(&proof, &inputs);
    assert_eq!(code, runt::abi::VERIFY_VALID, "expected VALID, got {msg}");
}

#[test]
fn test_tx_verifier_wrong_root() {
    let tx_index = 5u64;
    let receipt_data = vec![0x01u8];
    let key = rlp_encode_u64(tx_index);
    let encoded_path = leaf_path(&bytes_to_nibbles(&key));
    let leaf_rlp = rlp_encode_list(&[&encoded_path, &receipt_data]);
    let proof = rlp_encode_list(&[&leaf_rlp]);
    let wrong_root = [0xFFu8; 32];
    let mut inputs = wrong_root.to_vec();
    inputs.extend_from_slice(&tx_index.to_be_bytes());

    let (code, _msg) = run(&proof, &inputs);
    assert_eq!(code, runt::abi::VERIFY_INVALID, "expected INVALID for wrong root");
}

#[test]
fn test_tx_verifier_wrong_tx_index() {
    let tx_index = 5u64;
    let receipt_data = vec![0x01u8];
    let key = rlp_encode_u64(tx_index);
    let encoded_path = leaf_path(&bytes_to_nibbles(&key));
    let leaf_rlp = rlp_encode_list(&[&encoded_path, &receipt_data]);
    let receipts_root = keccak256(&leaf_rlp);
    let proof = rlp_encode_list(&[&leaf_rlp]);

    let wrong_index = 99u64;
    let mut inputs = receipts_root.to_vec();
    inputs.extend_from_slice(&wrong_index.to_be_bytes());

    let (code, _msg) = run(&proof, &inputs);
    assert_eq!(code, runt::abi::VERIFY_INVALID, "expected INVALID for wrong tx index");
}

#[test]
fn test_tx_verifier_expected_prefix() {
    let tx_index = 300u64;
    let receipt_data = vec![0x01u8, 0x02, 0x03];
    let key = rlp_encode_u64(tx_index);
    assert_eq!(key, runt::encode::rlp_encode_u64(tx_index));
    let encoded_path = leaf_path(&bytes_to_nibbles(&key));
    let leaf_rlp = rlp_encode_list(&[&encoded_path, &receipt_data]);
    let root = keccak256(&leaf_rlp);
    let proof = rlp_encode_list(&[&leaf_rlp]);
    let mut inputs = root.to_vec();
    inputs.extend_from_slice(&tx_index.to_be_bytes());

    let mut good = inputs.clone();
    good.extend_from_slice(&[0x01, 0x02]);
    assert_eq!(run(&proof, &good).0, runt::abi::VERIFY_VALID);

    let mut bad = inputs.clone();
    bad.extend_from_slice(&[0x01, 0x09]);
    let (code, msg) = run(&proof, &bad);
    assert_eq!(code, runt::abi::VERIFY_INVALID);
    assert_eq!(msg, "receipt data mismatch with expected");

    let mut longer = inputs.clone();
    longer.extend_from_slice(&[0x09; 10]);
    assert_eq!(run(&proof, &longer).0, runt::abi::VERIFY_VALID);

    let (_, msg) = run(&proof, &inputs[..39]);
    assert_eq!(
        msg,
        "public inputs too short: need receipts_root (32 bytes) + tx_index (8 bytes BE)"
    );
}

// --- RLP encoding helpers ---

fn rlp_encode_list(items: &[&[u8]]) -> Vec<u8> {
    let mut payload = Vec::new();
    for item in items {
        payload.extend_from_slice(&rlp_encode_bytes(item));
    }
    let mut out = Vec::new();
    rlp_write_header(&mut out, 0xc0, payload.len());
    out.extend_from_slice(&payload);
    out
}

fn rlp_encode_bytes(data: &[u8]) -> Vec<u8> {
    if data.len() == 1 && data[0] < 0x80 { return data.to_vec(); }
    let mut out = Vec::new();
    rlp_write_header(&mut out, 0x80, data.len());
    out.extend_from_slice(data);
    out
}

fn rlp_encode_u64(n: u64) -> Vec<u8> {
    if n == 0 { return vec![0x80]; }
    let mut bytes = Vec::new();
    let mut val = n;
    while val > 0 { bytes.insert(0, (val & 0xFF) as u8); val >>= 8; }
    rlp_encode_bytes(&bytes)
}

fn rlp_write_header(out: &mut Vec<u8>, offset: u8, len: usize) {
    if len < 55 {
        out.push(offset + len as u8);
    } else {
        let len_bytes = usize_to_bytes(len);
        out.push(offset + 55 + len_bytes.len() as u8);
        out.extend_from_slice(&len_bytes);
    }
}

fn usize_to_bytes(n: usize) -> Vec<u8> {
    let mut bytes = Vec::new();
    let mut val = n;
    while val > 0 { bytes.insert(0, (val & 0xFF) as u8); val >>= 8; }
    bytes
}

fn bytes_to_nibbles(bytes: &[u8]) -> Vec<u8> {
    let mut n = Vec::with_capacity(bytes.len() * 2);
    for &b in bytes { n.push(b >> 4); n.push(b & 0x0F); }
    n
}

fn leaf_path(nibbles: &[u8]) -> Vec<u8> {
    let mut encoded = Vec::new();
    let odd = nibbles.len() % 2 != 0;
    let prefix = if odd { 0x30 | nibbles[0] } else { 0x20 };
    encoded.push(prefix);
    let start = if odd { 1 } else { 0 };
    for i in (start..nibbles.len()).step_by(2) {
        encoded.push((nibbles[i] << 4) | nibbles[i + 1]);
    }
    encoded
}

fn keccak256(data: &[u8]) -> [u8; 32] {
    let mut hasher = Keccak256::new();
    hasher.update(data);
    let result = hasher.finalize();
    let mut out = [0u8; 32];
    out.copy_from_slice(&result);
    out
}
