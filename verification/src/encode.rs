//! Integer and RLP encodings: the receipt verifier's key encoding, and the
//! encoders that build proofs and test vectors.
use vstd::prelude::*;
use vstd::slice::slice_to_vec;

verus! {

/// The big-endian value of `s`, computed in `u64` with every shift discarding
/// the bits pushed out at the top.
pub open spec fn be_u64(s: Seq<u8>) -> u64
    decreases s.len(),
{
    if s.len() == 0 {
        0
    } else {
        ((be_u64(s.drop_last()) << 8u64) | (s.last() as u64)) as u64
    }
}

/// The big-endian bytes of `n` without leading zero bytes (no bytes for zero).
pub open spec fn be_minimal(n: nat) -> Seq<u8>
    decreases n,
{
    if n == 0 {
        Seq::empty()
    } else {
        be_minimal(n / 256).push((n % 256) as u8)
    }
}

/// 256 to the power `k`.
pub open spec fn pow256(k: nat) -> nat
    decreases k,
{
    if k == 0 {
        1
    } else {
        256 * pow256((k - 1) as nat)
    }
}

/// A number below 256^k takes at most k bytes.
pub proof fn lemma_be_minimal_len(n: nat, k: nat)
    requires
        n < pow256(k),
    ensures
        be_minimal(n).len() <= k,
    decreases n,
{
    if n > 0 {
        assert(k > 0);
        assert(n / 256 < pow256((k - 1) as nat));
        lemma_be_minimal_len(n / 256, (k - 1) as nat);
    }
}

/// A 64-bit number takes at most eight bytes.
pub proof fn lemma_be_minimal_len_u64(n: u64)
    ensures
        be_minimal(n as nat).len() <= 8,
{
    reveal_with_fuel(pow256, 9);
    lemma_be_minimal_len(n as nat, 8);
}

/// The RLP encoding of a transaction index, as the receipt trie keys it.
pub open spec fn spec_rlp_encode_u64(n: u64) -> Seq<u8> {
    if n == 0 {
        seq![0x80u8]
    } else {
        let b = be_minimal(n as nat);
        if b.len() == 1 && b[0] < 0x80 {
            b
        } else {
            seq![(0x80 + b.len()) as u8] + b
        }
    }
}

/// Reads up to the first eight bytes of `bytes` as a big-endian number.
pub fn u64_from_be(bytes: &[u8]) -> (v: u64)
    ensures
        v == be_u64(bytes@.take(if bytes@.len() < 8 { bytes@.len() as int } else { 8 })),
{
    let end = if bytes.len() < 8 { bytes.len() } else { 8 };
    let mut v: u64 = 0;
    let mut i: usize = 0;
    while i < end
        invariant
            i <= end,
            end <= bytes@.len(),
            v == be_u64(bytes@.take(i as int)),
        decreases end - i,
    {
        assert(bytes@.take(i + 1).drop_last() =~= bytes@.take(i as int));
        v = (v << 8u64) | (bytes[i] as u64);
        i = i + 1;
    }
    v
}

/// The big-endian bytes of `n` without leading zero bytes.
pub fn be_minimal_bytes(n: u64) -> (bytes: Vec<u8>)
    ensures
        bytes@ == be_minimal(n as nat),
{
    let mut bytes: Vec<u8> = Vec::new();
    let mut val = n;
    while val > 0
        invariant
            be_minimal(n as nat) == be_minimal(val as nat) + bytes@,
        decreases val,
    {
        let low = (val & 0xff) as u8;
        assert(val & 0xff == val % 256) by (bit_vector);
        assert(val >> 8 == val / 256) by (bit_vector);
        let ghost old_bytes = bytes@;
        bytes.insert(0, low);
        assert(be_minimal(val as nat) == be_minimal((val / 256) as nat).push(low));
        assert(be_minimal((val / 256) as nat).push(low) + old_bytes =~= be_minimal(
            (val / 256) as nat,
        ) + bytes@);
        val = val >> 8;
    }
    assert(be_minimal(0) + bytes@ =~= bytes@);
    bytes
}

/// RLP-encodes a transaction index: 0x80 for zero, a small number as itself,
/// anything else as its big-endian bytes behind a length prefix.
pub fn rlp_encode_u64(n: u64) -> (out: Vec<u8>)
    ensures
        out@ == spec_rlp_encode_u64(n),
{
    if n == 0 {
        return vec![0x80];
    }
    let mut bytes = be_minimal_bytes(n);
    if bytes.len() == 1 && bytes[0] < 0x80 {
        bytes
    } else {
        proof {
            lemma_be_minimal_len_u64(n);
        }
        let mut out = vec![0x80 + bytes.len() as u8];
        out.append(&mut bytes);
        out
    }
}

/// The RLP header of a string (`offset` 0x80) or list (`offset` 0xc0) whose
/// payload is `len` bytes long: one byte below 55, else the length of the
/// length, then the length in big-endian bytes.
pub open spec fn spec_rlp_header(offset: u8, len: nat) -> Seq<u8> {
    if len <= 55 {
        seq![(offset + len) as u8]
    } else {
        let lb = be_minimal(len);
        seq![(offset + 55 + lb.len()) as u8] + lb
    }
}

/// The RLP encoding of a byte string.
pub open spec fn spec_rlp_item(data: Seq<u8>) -> Seq<u8> {
    if data.len() == 1 && data[0] < 0x80 {
        data
    } else {
        spec_rlp_header(0x80, data.len()) + data
    }
}

/// The encodings of the strings in `items`, one after the other.
pub open spec fn spec_rlp_payload(items: Seq<Seq<u8>>) -> Seq<u8>
    decreases items.len(),
{
    if items.len() == 0 {
        Seq::empty()
    } else {
        spec_rlp_payload(items.drop_last()) + spec_rlp_item(items.last())
    }
}

/// The RLP encoding of a list of byte strings.
pub open spec fn spec_rlp_list(items: Seq<Seq<u8>>) -> Seq<u8> {
    spec_rlp_header(0xc0, spec_rlp_payload(items).len()) + spec_rlp_payload(items)
}

/// The RLP encoding of a number as a byte string.
pub open spec fn spec_rlp_u64(n: u64) -> Seq<u8> {
    if n == 0 {
        seq![0x80u8]
    } else {
        spec_rlp_item(be_minimal(n as nat))
    }
}

/// The contents of a sequence of byte slices.
pub open spec fn slice_views(items: Seq<&[u8]>) -> Seq<Seq<u8>> {
    Seq::new(items.len(), |i: int| items[i]@)
}

/// A number that fits a `usize` takes at most eight bytes.
pub proof fn lemma_be_minimal_len_usize(n: usize)
    ensures
        be_minimal(n as nat).len() <= 8,
{
    reveal_with_fuel(pow256, 9);
    lemma_be_minimal_len(n as nat, 8);
}

/// The big-endian bytes of `n` without leading zero bytes (none for zero).
pub fn usize_be_bytes(n: usize) -> (b: Vec<u8>)
    ensures
        b@ == be_minimal(n as nat),
{
    let mut b: Vec<u8> = Vec::new();
    let mut v = n;
    while v > 0
        invariant
            be_minimal(n as nat) == be_minimal(v as nat) + b@,
        decreases v,
    {
        let low = (v & 0xff) as u8;
        assert(v & 0xff == v % 256) by (bit_vector);
        assert(v >> 8 == v / 256) by (bit_vector);
        let ghost old_b = b@;
        b.insert(0, low);
        assert(be_minimal(v as nat) == be_minimal((v / 256) as nat).push(low));
        assert(be_minimal((v / 256) as nat).push(low) + old_b =~= be_minimal((v / 256) as nat)
            + b@);
        v = v >> 8;
    }
    assert(be_minimal(0) + b@ =~= b@);
    b
}

/// Appends the RLP header for a payload of `len` bytes to `out`.
pub fn rlp_header(out: &mut Vec<u8>, offset: u8, len: usize)
    requires
        offset <= 0xc0,
    ensures
        final(out)@ == old(out)@ + spec_rlp_header(offset, len as nat),
{
    if len <= 55 {
        out.push(offset + len as u8);
    } else {
        let mut lb = usize_be_bytes(len);
        proof {
            lemma_be_minimal_len_usize(len);
        }
        out.push(offset + 55 + lb.len() as u8);
        out.append(&mut lb);
    }
}

/// RLP-encodes a byte string.
pub fn rlp_item(data: &[u8]) -> (out: Vec<u8>)
    ensures
        out@ == spec_rlp_item(data@),
{
    if data.len() == 1 && data[0] < 0x80 {
        return slice_to_vec(data);
    }
    let mut out: Vec<u8> = Vec::new();
    rlp_header(&mut out, 0x80, data.len());
    let mut body = slice_to_vec(data);
    out.append(&mut body);
    out
}

/// RLP-encodes a list of byte strings.
pub fn rlp_list(items: &[&[u8]]) -> (out: Vec<u8>)
    ensures
        out@ == spec_rlp_list(slice_views(items@)),
{
    let mut payload: Vec<u8> = Vec::new();
    let mut i: usize = 0;
    while i < items.len()
        invariant
            i <= items@.len(),
            payload@ == spec_rlp_payload(slice_views(items@.subrange(0, i as int))),
        decreases items.len() - i,
    {
        let mut enc = rlp_item(items[i]);
        assert(slice_views(items@.subrange(0, i + 1)).drop_last() =~= slice_views(
            items@.subrange(0, i as int),
        ));
        payload.append(&mut enc);
        i = i + 1;
    }
    assert(items@.subrange(0, items.len() as int) =~= items@);
    let mut out: Vec<u8> = Vec::new();
    rlp_header(&mut out, 0xc0, payload.len());
    out.append(&mut payload);
    out
}

/// RLP-encodes a number as a byte string.
pub fn rlp_u64(n: u64) -> (out: Vec<u8>)
    ensures
        out@ == spec_rlp_u64(n),
{
    if n == 0 {
        return vec![0x80];
    }
    let bytes = be_minimal_bytes(n);
    rlp_item(bytes.as_slice())
}

/// The bytes of a path of nibbles, packed two to a byte, high nibble first.
pub open spec fn spec_pack_nibbles(n: Seq<u8>) -> Seq<u8>
    decreases n.len(),
{
    if n.len() < 2 {
        Seq::empty()
    } else {
        spec_pack_nibbles(n.take(n.len() - 2)).push(
            ((n[n.len() - 2] << 4u8) | n[n.len() - 1]) as u8,
        )
    }
}

/// The hex-prefix encoding of a leaf path: 0x20 for an even number of nibbles,
/// 0x30 joined with the first nibble for an odd number, then the remaining
/// nibbles packed two to a byte.
pub open spec fn spec_leaf_path(nibbles: Seq<u8>) -> Seq<u8> {
    if nibbles.len() % 2 != 0 {
        seq![(0x30u8 | nibbles[0]) as u8] + spec_pack_nibbles(nibbles.skip(1))
    } else {
        seq![0x20u8] + spec_pack_nibbles(nibbles)
    }
}

/// Encodes the nibbles of a leaf's path in hex-prefix form.
pub fn leaf_path(nibbles: &[u8]) -> (encoded: Vec<u8>)
    ensures
        encoded@ == spec_leaf_path(nibbles@),
{
    let mut encoded: Vec<u8> = Vec::new();
    let odd = nibbles.len() % 2 != 0;
    let prefix = if odd { 0x30 | nibbles[0] } else { 0x20 };
    encoded.push(prefix);
    let start: usize = if odd { 1 } else { 0 };
    let ghost rest = nibbles@.skip(start as int);
    assert(nibbles@.skip(0) =~= nibbles@);
    let mut i: usize = start;
    while i < nibbles.len()
        invariant
            start <= i <= nibbles@.len(),
            (i - start) % 2 == 0,
            (nibbles@.len() - start) % 2 == 0,
            rest == nibbles@.skip(start as int),
            encoded@ == seq![prefix] + spec_pack_nibbles(rest.take(i - start)),
        decreases nibbles.len() - i,
    {
        let b = (nibbles[i] << 4u8) | nibbles[i + 1];
        let ghost pre = rest.take(i - start);
        let ghost next = rest.take(i + 2 - start);
        assert(next.take(next.len() - 2) =~= pre);
        assert(next[next.len() - 2] == nibbles@[i as int]);
        assert(next[next.len() - 1] == nibbles@[i + 1]);
        encoded.push(b);
        assert(encoded@ =~= seq![prefix] + spec_pack_nibbles(next));
        i = i + 2;
    }
    assert(rest.take(nibbles@.len() - start) =~= rest);
    encoded
}

/// The `width` low-order bytes of `n`, big-endian.
pub open spec fn be_fixed(n: nat, width: nat) -> Seq<u8>
    decreases width,
{
    if width == 0 {
        Seq::empty()
    } else {
        be_fixed(n / 256, (width - 1) as nat).push((n % 256) as u8)
    }
}

/// The index of the first non-zero byte of `b`, or of its last byte when all are zero.
pub open spec fn first_nonzero(b: Seq<u8>) -> int
    decreases b.len(),
{
    if b.len() <= 1 || b[0] != 0 {
        0
    } else {
        1 + first_nonzero(b.drop_first())
    }
}

/// The index of the first non-zero byte of `b`, or of its last byte when all are zero.
pub fn first_nonzero_index(b: &[u8]) -> (i: usize)
    requires
        b@.len() > 0,
    ensures
        i == first_nonzero(b@),
        i < b@.len(),
{
    let mut i: usize = 0;
    assert(b@.skip(0) =~= b@);
    while i < b.len() - 1 && b[i] == 0
        invariant
            i < b@.len(),
            first_nonzero(b@) == i + first_nonzero(b@.skip(i as int)),
        decreases b.len() - i,
    {
        assert(b@.skip(i as int).drop_first() =~= b@.skip(i + 1));
        i = i + 1;
    }
    proof {
        lemma_first_nonzero_bounded(b@);
    }
    i
}

/// The index is within the bytes.
pub proof fn lemma_first_nonzero_bounded(b: Seq<u8>)
    ensures
        b.len() > 0 ==> 0 <= first_nonzero(b) < b.len(),
    decreases b.len(),
{
    if b.len() > 1 && b[0] == 0 {
        lemma_first_nonzero_bounded(b.drop_first());
    }
}

/// The RLP encoding of the big-endian bytes of a `width`-byte number, leading
/// zero bytes dropped; 0x80 for zero.
pub open spec fn spec_be_number_item(n: nat, width: nat) -> Seq<u8> {
    if n == 0 {
        seq![0x80u8]
    } else {
        let b = be_fixed(n, width);
        spec_rlp_item(b.skip(first_nonzero(b)))
    }
}

/// The eight big-endian bytes of `n`.
pub fn u64_be_bytes(n: u64) -> (b: Vec<u8>)
    ensures
        b@ == be_fixed(n as nat, 8),
{
    let mut b: Vec<u8> = Vec::new();
    let mut v = n;
    let mut k: usize = 0;
    while k < 8
        invariant
            k <= 8,
            be_fixed(n as nat, 8) == be_fixed(v as nat, (8 - k) as nat) + b@,
        decreases 8 - k,
    {
        let low = (v & 0xff) as u8;
        assert(v & 0xff == v % 256) by (bit_vector);
        assert(v >> 8 == v / 256) by (bit_vector);
        let ghost old_b = b@;
        b.insert(0, low);
        assert(be_fixed(v as nat, (8 - k) as nat) == be_fixed((v / 256) as nat, (8 - k - 1) as nat).push(low));
        assert(be_fixed((v / 256) as nat, (8 - k - 1) as nat).push(low) + old_b =~= be_fixed(
            (v / 256) as nat,
            (8 - k - 1) as nat,
        ) + b@);
        v = v >> 8;
        k = k + 1;
    }
    assert(be_fixed(v as nat, 0) + b@ =~= b@);
    b
}

/// The sixteen big-endian bytes of `n`.
pub fn u128_be_bytes(n: u128) -> (b: Vec<u8>)
    ensures
        b@ == be_fixed(n as nat, 16),
{
    let mut b: Vec<u8> = Vec::new();
    let mut v = n;
    let mut k: usize = 0;
    while k < 16
        invariant
            k <= 16,
            be_fixed(n as nat, 16) == be_fixed(v as nat, (16 - k) as nat) + b@,
        decreases 16 - k,
    {
        let low = (v & 0xff) as u8;
        assert(v & 0xff == v % 256) by (bit_vector);
        assert(v >> 8 == v / 256) by (bit_vector);
        let ghost old_b = b@;
        b.insert(0, low);
        assert(be_fixed(v as nat, (16 - k) as nat) == be_fixed((v / 256) as nat, (16 - k - 1) as nat).push(low));
        assert(be_fixed((v / 256) as nat, (16 - k - 1) as nat).push(low) + old_b =~= be_fixed(
            (v / 256) as nat,
            (16 - k - 1) as nat,
        ) + b@);
        v = v >> 8;
        k = k + 1;
    }
    assert(be_fixed(v as nat, 0) + b@ =~= b@);
    b
}

/// RLP-encodes an account nonce: its big-endian bytes without leading zeros.
pub fn nonce_be_bytes(n: u64) -> (out: Vec<u8>)
    ensures
        out@ == spec_be_number_item(n as nat, 8),
{
    if n == 0 {
        return vec![0x80];
    }
    let b = u64_be_bytes(n);
    let start = first_nonzero_index(b.as_slice());
    let tail = &b.as_slice()[start..b.len()];
    assert(tail@ =~= b@.skip(start as int));
    rlp_item(tail)
}

/// RLP-encodes an account balance: its big-endian bytes without leading zeros.
pub fn balance_be_bytes(b: u128) -> (out: Vec<u8>)
    ensures
        out@ == spec_be_number_item(b as nat, 16),
{
    if b == 0 {
        return vec![0x80];
    }
    let bytes = u128_be_bytes(b);
    let start = first_nonzero_index(bytes.as_slice());
    let tail = &bytes.as_slice()[start..bytes.len()];
    assert(tail@ =~= bytes@.skip(start as int));
    rlp_item(tail)
}

/// The big-endian bytes of `n` without leading zero bytes.
pub fn be_minimal_bytes_u128(n: u128) -> (bytes: Vec<u8>)
    ensures
        bytes@ == be_minimal(n as nat),
{
    let mut bytes: Vec<u8> = Vec::new();
    let mut val = n;
    while val > 0
        invariant
            be_minimal(n as nat) == be_minimal(val as nat) + bytes@,
        decreases val,
    {
        let low = (val & 0xff) as u8;
        assert(val & 0xff == val % 256) by (bit_vector);
        assert(val >> 8 == val / 256) by (bit_vector);
        let ghost old_bytes = bytes@;
        bytes.insert(0, low);
        assert(be_minimal(val as nat) == be_minimal((val / 256) as nat).push(low));
        assert(be_minimal((val / 256) as nat).push(low) + old_bytes =~= be_minimal(
            (val / 256) as nat,
        ) + bytes@);
        val = val >> 8;
    }
    assert(be_minimal(0) + bytes@ =~= bytes@);
    bytes
}

/// An account as the state trie stores it: the RLP list of the nonce and the
/// balance (each as its big-endian bytes without leading zeros), the storage
/// root and the code hash.
pub open spec fn spec_rlp_account(
    nonce: u64,
    balance: u128,
    storage_root: Seq<u8>,
    code_hash: Seq<u8>,
) -> Seq<u8> {
    spec_rlp_list(
        seq![be_minimal(nonce as nat), be_minimal(balance as nat), storage_root, code_hash],
    )
}

/// Encodes an account for the state trie.
pub fn rlp_account(nonce: u64, balance: u128, storage_root: &[u8; 32], code_hash: &[u8; 32]) -> (out:
    Vec<u8>)
    ensures
        out@ == spec_rlp_account(nonce, balance, storage_root@, code_hash@),
{
    let n = be_minimal_bytes(nonce);
    let b = be_minimal_bytes_u128(balance);
    let items: [&[u8]; 4] = [n.as_slice(), b.as_slice(), storage_root.as_slice(), code_hash.as_slice()];
    let out = rlp_list(&items);
    assert(slice_views(items@) =~= seq![n@, b@, storage_root@, code_hash@]);
    out
}

/// The payload of an encoded receipt: the encoded status byte, the encoded gas
/// used, the encoded bloom filter and an empty log list, one after the other.
pub open spec fn spec_receipt_payload(status: u8, gas: u64, bloom: Seq<u8>) -> Seq<u8> {
    spec_rlp_item(seq![status]) + spec_rlp_u64(gas) + spec_rlp_item(bloom) + seq![0xc0u8]
}

/// A receipt as the receipts trie stores it: the RLP list of the status byte,
/// the gas used, the bloom filter and an empty list of logs.
pub open spec fn spec_rlp_receipt(status: u8, gas: u64, bloom: Seq<u8>) -> Seq<u8> {
    spec_rlp_header(0xc0, spec_receipt_payload(status, gas, bloom).len()) + spec_receipt_payload(
        status,
        gas,
        bloom,
    )
}

/// Encodes a receipt for the receipts trie; the logs are not encoded.
pub fn rlp_receipt(status: u8, gas: u64, _logs: &[&[u8]], bloom: &[u8; 256]) -> (out: Vec<u8>)
    ensures
        out@ == spec_rlp_receipt(status, gas, bloom@),
{
    let status_bytes: [u8; 1] = [status];
    let mut payload = rlp_item(status_bytes.as_slice());
    assert(status_bytes@ =~= seq![status]);
    let mut gas_rlp = rlp_u64(gas);
    payload.append(&mut gas_rlp);
    let mut bloom_rlp = rlp_item(bloom.as_slice());
    payload.append(&mut bloom_rlp);
    payload.push(0xc0);
    assert(payload@ =~= spec_receipt_payload(status, gas, bloom@));
    let mut out: Vec<u8> = Vec::new();
    rlp_header(&mut out, 0xc0, payload.len());
    out.append(&mut payload);
    out
}

} // verus!
