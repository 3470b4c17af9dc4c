//! Walking a Merkle Patricia Trie along a key, through the nodes of a proof.
use vstd::prelude::*;

use crate::hashing::{keccak256, keccak256_digest};
use crate::rlp::{decode_rlp_list, spec_list, byte_views};
use crate::text::{
    all_nibbles, concat_str, concat_string, hex32, nibbles_hex, push_decimal, spec_bytes_hex,
    spec_decimal, spec_nibbles_hex,
};
use vstd::slice::slice_to_vec;

verus! {

/// The verifier a walk is made for: the two trie verifiers word their failures
/// differently.
#[derive(Clone, Copy, PartialEq, Eq, Structural)]
pub enum Dialect {
    /// The account (state) verifier.
    Account,
    /// The receipt (transaction) verifier.
    Receipt,
}

/// The nibbles of `b`, high nibble of each byte first.
pub open spec fn spec_nibbles(b: Seq<u8>) -> Seq<u8>
    decreases b.len(),
{
    if b.len() == 0 {
        Seq::empty()
    } else {
        spec_nibbles(b.drop_last()) + seq![b.last() >> 4, b.last() & 0x0f]
    }
}

/// The nibbles of a hex-prefix encoded path whose first byte is `prefix` and
/// whose remaining bytes are `encoded`: the low nibble of `prefix` when its
/// odd flag (0x10) is set, then the nibbles of `encoded`.
pub open spec fn spec_hex_prefix_nibbles(prefix: u8, encoded: Seq<u8>) -> Seq<u8> {
    if prefix & 0x10 != 0 {
        seq![prefix & 0x0f] + spec_nibbles(encoded)
    } else {
        spec_nibbles(encoded)
    }
}

/// Every nibble is below 16.
pub proof fn lemma_nibbles_bounded(b: Seq<u8>)
    ensures
        spec_nibbles(b).len() == 2 * b.len(),
        all_nibbles(spec_nibbles(b)),
    decreases b.len(),
{
    if b.len() > 0 {
        lemma_nibbles_bounded(b.drop_last());
        let x = b.last();
        assert(x >> 4 < 16 && x & 0x0f < 16) by (bit_vector);
    }
}

/// Splits each byte into its two nibbles, high nibble first.
pub fn bytes_to_nibbles(bytes: &[u8]) -> (nibbles: Vec<u8>)
    ensures
        nibbles@ == spec_nibbles(bytes@),
{
    let mut nibbles: Vec<u8> = Vec::new();
    let mut i: usize = 0;
    while i < bytes.len()
        invariant
            i <= bytes.len(),
            nibbles@ == spec_nibbles(bytes@.subrange(0, i as int)),
        decreases bytes.len() - i,
    {
        let b = bytes[i];
        assert(bytes@.subrange(0, i + 1).drop_last() =~= bytes@.subrange(0, i as int));
        nibbles.push(b >> 4);
        nibbles.push(b & 0x0f);
        i = i + 1;
    }
    assert(bytes@.subrange(0, bytes.len() as int) =~= bytes@);
    nibbles
}

/// Decodes a hex-prefix encoded path: its nibbles, and whether the odd flag is set.
pub fn decode_hex_prefix(prefix: u8, encoded: &[u8]) -> (r: (Vec<u8>, bool))
    ensures
        r.0@ == spec_hex_prefix_nibbles(prefix, encoded@),
        r.1 == (prefix & 0x10 != 0),
{
    let odd = (prefix & 0x10) != 0;
    let mut nibbles: Vec<u8> = Vec::new();
    if odd {
        nibbles.push(prefix & 0x0f);
    }
    let tail = bytes_to_nibbles(encoded);
    let mut i: usize = 0;
    let ghost start = nibbles@;
    while i < tail.len()
        invariant
            i <= tail.len(),
            nibbles@ == start + tail@.subrange(0, i as int),
        decreases tail.len() - i,
    {
        nibbles.push(tail[i]);
        assert(tail@.subrange(0, i + 1) =~= tail@.subrange(0, i as int).push(tail@[i as int]));
        i = i + 1;
    }
    assert(tail@.subrange(0, tail.len() as int) =~= tail@);
    (nibbles, odd)
}

/// The node stored first under `hash`, if any.
pub open spec fn spec_lookup(nodes: Seq<(Seq<u8>, Seq<u8>)>, hash: Seq<u8>) -> Option<Seq<u8>>
    decreases nodes.len(),
{
    if nodes.len() == 0 {
        None
    } else if nodes[0].0 == hash {
        Some(nodes[0].1)
    } else {
        spec_lookup(nodes.drop_first(), hash)
    }
}

/// Trie nodes of a proof, each stored under its hash, in the order of insertion.
pub struct NodeMap {
    hashes: Vec<([u8; 32], Vec<u8>)>,
}

impl NodeMap {
    /// The hashes and nodes stored, in the order of insertion.
    pub closed spec fn entries(&self) -> Seq<(Seq<u8>, Seq<u8>)> {
        Seq::new(self.hashes@.len(), |i: int| (self.hashes@[i].0@, self.hashes@[i].1@))
    }

    /// An empty map.
    pub fn new() -> (m: Self)
        ensures
            m.entries() == Seq::<(Seq<u8>, Seq<u8>)>::empty(),
    {
        let m = NodeMap { hashes: Vec::new() };
        assert(m.entries() =~= Seq::<(Seq<u8>, Seq<u8>)>::empty());
        m
    }

    /// Stores `node` under `hash`, after everything stored before.
    pub fn insert(&mut self, hash: [u8; 32], node: &[u8])
        ensures
            final(self).entries() == old(self).entries().push((hash@, node@)),
    {
        self.hashes.push((hash, slice_to_vec(node)));
        assert(self.entries() =~= old(self).entries().push((hash@, node@)));
    }

    /// The node stored first under `hash`.
    pub fn get(&self, hash: &[u8; 32]) -> (r: Option<&[u8]>)
        ensures
            match spec_lookup(self.entries(), hash@) {
                None => r is None,
                Some(node) => r matches Some(n) && n@ == node,
            },
    {
        let mut i: usize = 0;
        assert(self.entries().skip(0) =~= self.entries());
        while i < self.hashes.len()
            invariant
                i <= self.hashes@.len(),
                spec_lookup(self.entries(), hash@) == spec_lookup(
                    self.entries().skip(i as int),
                    hash@,
                ),
            decreases self.hashes.len() - i,
        {
            let ghost rest = self.entries().skip(i as int);
            assert(rest.drop_first() =~= self.entries().skip(i + 1));
            if hashes_equal(&self.hashes[i].0, hash) {
                return Some(self.hashes[i].1.as_slice());
            }
            i = i + 1;
        }
        None
    }
}

/// Whether two hashes are the same bytes.
pub fn hashes_equal(a: &[u8; 32], b: &[u8; 32]) -> (r: bool)
    ensures
        r == (a@ == b@),
{
    let mut i: usize = 0;
    while i < 32
        invariant
            i <= 32,
            a@.len() == 32,
            b@.len() == 32,
            forall|j: int| 0 <= j < i ==> a@[j] == b@[j],
        decreases 32 - i,
    {
        if a[i] != b[i] {
            return false;
        }
        i = i + 1;
    }
    assert(a@ =~= b@);
    true
}

/// Copies a 32-byte slice into an array.
pub fn to_hash(bytes: &[u8]) -> (h: [u8; 32])
    requires
        bytes@.len() == 32,
    ensures
        h@ == bytes@,
{
    let mut h = [0u8; 32];
    let mut i: usize = 0;
    while i < 32
        invariant
            i <= 32,
            bytes@.len() == 32,
            h@.len() == 32,
            forall|j: int| 0 <= j < i ==> h@[j] == bytes@[j],
        decreases 32 - i,
    {
        h[i] = bytes[i];
        i = i + 1;
    }
    assert(h@ =~= bytes@);
    h
}

/// Why a walk stops without a value.
pub enum WalkError {
    /// No node of the proof has this hash.
    MissingNode(Seq<u8>),
    /// A node is not an RLP list.
    BadNode,
    /// A two-item node has an empty path.
    EmptyPath,
    /// The path of a leaf (`true`) or extension (`false`) is longer than what is left of the key.
    PathTooLong(bool),
    /// The path of a leaf differs from the rest of the key, or the path of an
    /// extension from the start of the rest: the path, and the key nibbles compared.
    PathMismatch(bool, Seq<u8>, Seq<u8>),
    /// The child of an extension is not a 32-byte hash; its length.
    BadExtensionChild(nat),
    /// The key ends at a branch that holds no value.
    NoValue,
    /// The branch child that the key selects is empty; the nibble.
    DeadEnd(nat),
    /// A node with neither 2 nor 17 items; the count.
    UnknownNode(nat),
    /// The walk goes on for longer than any walk that does not revisit a node.
    Cycle,
}

/// Whether a branch slot holds nothing: no bytes, or the single byte 0x80.
pub open spec fn is_empty_slot(v: Seq<u8>) -> bool {
    v.len() <= 1 && (v.len() == 0 || v[0] == 0x80)
}

/// The result of walking the trie from the node with hash `hash`, with the key
/// nibbles before `offset` already consumed, taking at most `fuel` steps.
pub open spec fn spec_walk(
    nodes: Seq<(Seq<u8>, Seq<u8>)>,
    hash: Seq<u8>,
    key: Seq<u8>,
    offset: int,
    fuel: nat,
    dialect: Dialect,
) -> Result<Seq<u8>, WalkError>
    decreases fuel,
{
    if fuel == 0 {
        Err(WalkError::Cycle)
    } else {
        match spec_lookup(nodes, hash) {
            None => Err(WalkError::MissingNode(hash)),
            Some(node) => match spec_list(node) {
                None => Err(WalkError::BadNode),
                Some(items) => if items.len() == 2 {
                    let path = items[0];
                    if path.len() == 0 {
                        Err(WalkError::EmptyPath)
                    } else {
                        let prefix = path[0];
                        let is_leaf = prefix & 0x20 != 0;
                        let path_nibbles = spec_hex_prefix_nibbles(prefix, path.skip(1));
                        let remaining = key.skip(offset);
                        if path_nibbles.len() > remaining.len() {
                            Err(WalkError::PathTooLong(is_leaf))
                        } else if is_leaf {
                            if path_nibbles != remaining {
                                Err(WalkError::PathMismatch(true, path_nibbles, remaining))
                            } else {
                                Ok(items[1])
                            }
                        } else if path_nibbles != remaining.take(path_nibbles.len() as int) {
                            Err(
                                WalkError::PathMismatch(
                                    false,
                                    path_nibbles,
                                    remaining.take(path_nibbles.len() as int),
                                ),
                            )
                        } else if items[1].len() != 32 {
                            Err(WalkError::BadExtensionChild(items[1].len()))
                        } else {
                            spec_walk(
                                nodes,
                                items[1],
                                key,
                                offset + path_nibbles.len(),
                                (fuel - 1) as nat,
                                dialect,
                            )
                        }
                    }
                } else if items.len() == 17 {
                    if offset >= key.len() {
                        if is_empty_slot(items[16]) {
                            Err(WalkError::NoValue)
                        } else {
                            Ok(items[16])
                        }
                    } else {
                        let nibble = key[offset];
                        let child = items[nibble as int];
                        if is_empty_slot(child) {
                            Err(WalkError::DeadEnd(nibble as nat))
                        } else {
                            let next = if child.len() == 32 {
                                child
                            } else {
                                keccak256_digest(child)
                            };
                            spec_walk(nodes, next, key, offset + 1, (fuel - 1) as nat, dialect)
                        }
                    }
                } else {
                    Err(WalkError::UnknownNode(items.len()))
                },
            },
        }
    }
}

/// The message a verifier gives for a failed walk.
pub open spec fn walk_message(e: WalkError, dialect: Dialect) -> Seq<char> {
    match dialect {
        Dialect::Account => match e {
            WalkError::MissingNode(h) => "missing trie node: "@ + spec_bytes_hex(h),
            WalkError::BadNode => "failed to decode trie node RLP"@,
            WalkError::EmptyPath => "empty encoded path"@,
            WalkError::PathTooLong(leaf) => if leaf {
                "leaf path longer than remaining key"@
            } else {
                "extension path longer than remaining key"@
            },
            WalkError::PathMismatch(leaf, expected, got) => (if leaf {
                "leaf path mismatch: expected "@
            } else {
                "extension path mismatch: expected "@
            }) + spec_nibbles_hex(expected) + ", got "@ + spec_nibbles_hex(got),
            WalkError::BadExtensionChild(len) => "extension child must be 32 bytes, got "@
                + spec_decimal(len),
            WalkError::NoValue => "dead end at branch node: no value"@,
            WalkError::DeadEnd(n) => "dead end at branch child "@ + spec_decimal(n),
            WalkError::UnknownNode(count) => "unknown trie node type: "@ + spec_decimal(count)
                + " elements"@,
            WalkError::Cycle => "trie walk revisits a node"@,
        },
        Dialect::Receipt => match e {
            WalkError::MissingNode(_) => "missing trie node"@,
            WalkError::BadNode => "failed to decode trie node"@,
            WalkError::EmptyPath => "empty path"@,
            WalkError::PathTooLong(_) => "path longer than remaining key"@,
            WalkError::PathMismatch(_, _, _) => "path mismatch"@,
            WalkError::BadExtensionChild(_) => "extension child not 32 bytes"@,
            WalkError::NoValue => "no value at branch"@,
            WalkError::DeadEnd(_) => "dead end at branch"@,
            WalkError::UnknownNode(count) => "unknown node type: "@ + spec_decimal(count)
                + " elements"@,
            WalkError::Cycle => "trie walk revisits a node"@,
        },
    }
}

/// The number of steps after which a walk must have visited some node twice
/// at the same key position: one more than there are such pairs.
pub open spec fn walk_fuel(node_count: nat, key_len: nat) -> nat {
    let n = node_count * (key_len + 1) + 1;
    if n <= usize::MAX {
        n
    } else {
        usize::MAX as nat
    }
}

/// What walking from `root` along `key` through `nodes` gives, as a verifier reports it.
pub open spec fn spec_walk_result(
    nodes: Seq<(Seq<u8>, Seq<u8>)>,
    root: Seq<u8>,
    key: Seq<u8>,
    dialect: Dialect,
) -> Result<Seq<u8>, Seq<char>> {
    match spec_walk(nodes, root, key, 0, walk_fuel(nodes.len(), key.len()), dialect) {
        Ok(v) => Ok(v),
        Err(e) => Err(walk_message(e, dialect)),
    }
}

impl NodeMap {
    /// How many nodes are stored.
    pub fn len(&self) -> (n: usize)
        ensures
            n == self.entries().len(),
    {
        self.hashes.len()
    }
}

/// A failed walk, as the walker reports it before rendering a message.
pub enum WalkFailure {
    MissingNode([u8; 32]),
    BadNode,
    EmptyPath,
    PathTooLong(bool),
    PathMismatch(bool, Vec<u8>, Vec<u8>),
    BadExtensionChild(usize),
    NoValue,
    DeadEnd(usize),
    UnknownNode(usize),
    Cycle,
}

impl WalkFailure {
    /// The failure this value stands for.
    pub open spec fn spec_error(&self) -> WalkError {
        match self {
            WalkFailure::MissingNode(h) => WalkError::MissingNode(h@),
            WalkFailure::BadNode => WalkError::BadNode,
            WalkFailure::EmptyPath => WalkError::EmptyPath,
            WalkFailure::PathTooLong(l) => WalkError::PathTooLong(*l),
            WalkFailure::PathMismatch(l, e, g) => WalkError::PathMismatch(*l, e@, g@),
            WalkFailure::BadExtensionChild(n) => WalkError::BadExtensionChild(*n as nat),
            WalkFailure::NoValue => WalkError::NoValue,
            WalkFailure::DeadEnd(n) => WalkError::DeadEnd(*n as nat),
            WalkFailure::UnknownNode(n) => WalkError::UnknownNode(*n as nat),
            WalkFailure::Cycle => WalkError::Cycle,
        }
    }

    /// Whether the nibble sequences it carries hold nibbles only.
    pub open spec fn well_formed(&self) -> bool {
        match self {
            WalkFailure::PathMismatch(_, e, g) => all_nibbles(e@) && all_nibbles(g@),
            _ => true,
        }
    }

    /// The message a verifier of the given dialect gives for this failure.
    pub fn message(&self, dialect: Dialect) -> (m: String)
        requires
            self.well_formed(),
        ensures
            m@ == walk_message(self.spec_error(), dialect),
    {
        match dialect {
            Dialect::Account => match self {
                WalkFailure::MissingNode(h) => concat_string(
                    String::from_str("missing trie node: "),
                    hex32(h),
                ),
                WalkFailure::BadNode => String::from_str("failed to decode trie node RLP"),
                WalkFailure::EmptyPath => String::from_str("empty encoded path"),
                WalkFailure::PathTooLong(leaf) => if *leaf {
                    String::from_str("leaf path longer than remaining key")
                } else {
                    String::from_str("extension path longer than remaining key")
                },
                WalkFailure::PathMismatch(leaf, expected, got) => {
                    let head = if *leaf {
                        String::from_str("leaf path mismatch: expected ")
                    } else {
                        String::from_str("extension path mismatch: expected ")
                    };
                    let m = concat_string(head, nibbles_hex(expected.as_slice()));
                    let m = concat_str(m, ", got ");
                    concat_string(m, nibbles_hex(got.as_slice()))
                },
                WalkFailure::BadExtensionChild(len) => {
                    let mut m = String::from_str("extension child must be 32 bytes, got ");
                    push_decimal(&mut m, *len as u64);
                    m
                },
                WalkFailure::NoValue => String::from_str("dead end at branch node: no value"),
                WalkFailure::DeadEnd(n) => {
                    let mut m = String::from_str("dead end at branch child ");
                    push_decimal(&mut m, *n as u64);
                    m
                },
                WalkFailure::UnknownNode(count) => {
                    let mut m = String::from_str("unknown trie node type: ");
                    push_decimal(&mut m, *count as u64);
                    concat_str(m, " elements")
                },
                WalkFailure::Cycle => String::from_str("trie walk revisits a node"),
            },
            Dialect::Receipt => match self {
                WalkFailure::MissingNode(_) => String::from_str("missing trie node"),
                WalkFailure::BadNode => String::from_str("failed to decode trie node"),
                WalkFailure::EmptyPath => String::from_str("empty path"),
                WalkFailure::PathTooLong(_) => String::from_str("path longer than remaining key"),
                WalkFailure::PathMismatch(_, _, _) => String::from_str("path mismatch"),
                WalkFailure::BadExtensionChild(_) => String::from_str(
                    "extension child not 32 bytes",
                ),
                WalkFailure::NoValue => String::from_str("no value at branch"),
                WalkFailure::DeadEnd(_) => String::from_str("dead end at branch"),
                WalkFailure::UnknownNode(count) => {
                    let mut m = String::from_str("unknown node type: ");
                    push_decimal(&mut m, *count as u64);
                    concat_str(m, " elements")
                },
                WalkFailure::Cycle => String::from_str("trie walk revisits a node"),
            },
        }
    }
}

/// Whether `path` equals the elements of `key` that start at `offset`.
pub fn matches_at(path: &[u8], key: &[u8], offset: usize) -> (r: bool)
    requires
        offset + path@.len() <= key@.len(),
    ensures
        r == (path@ == key@.subrange(offset as int, offset + path@.len())),
{
    let mut i: usize = 0;
    while i < path.len()
        invariant
            i <= path@.len(),
            offset + path@.len() <= key@.len(),
            forall|j: int| 0 <= j < i ==> path@[j] == key@[offset + j],
        decreases path.len() - i,
    {
        assert(offset + i < key@.len() && key@.len() == key.len());
        if path[i] != key[offset + i] {
            assert(key@.subrange(offset as int, offset + path@.len())[i as int] != path@[i as int]);
            return false;
        }
        i = i + 1;
    }
    assert(path@ =~= key@.subrange(offset as int, offset + path@.len()));
    true
}

/// The step bound of a walk through `node_count` nodes along `key_len` nibbles.
pub fn walk_step_bound(node_count: usize, key_len: usize) -> (n: usize)
    ensures
        n == walk_fuel(node_count as nat, key_len as nat),
{
    if node_count == 0 {
        return 1;
    }
    let positions = match key_len.checked_add(1) {
        Some(p) => p,
        None => {
            assert(node_count * (key_len + 1) + 1 > usize::MAX) by (nonlinear_arith)
                requires node_count >= 1, key_len + 1 > usize::MAX;
            return usize::MAX;
        },
    };
    let pairs = match node_count.checked_mul(positions) {
        Some(p) => p,
        None => {
            assert(node_count * (key_len + 1) + 1 > usize::MAX) by (nonlinear_arith)
                requires node_count * positions > usize::MAX, positions == key_len + 1;
            return usize::MAX;
        },
    };
    match pairs.checked_add(1) {
        Some(n) => n,
        None => usize::MAX,
    }
}

/// Walks the trie from the node with hash `root` along the nibbles `key`,
/// returning the value where the walk ends. The key is read only once the root
/// node is found, so a missing root is reported whatever the key holds.
pub fn walk(node_map: &NodeMap, root: [u8; 32], key: &[u8], dialect: Dialect) -> (r: Result<
    Vec<u8>,
    WalkFailure,
>)
    requires
        all_nibbles(key@) || spec_lookup(node_map.entries(), root@) is None,
    ensures
        match spec_walk(
            node_map.entries(),
            root@,
            key@,
            0,
            walk_fuel(node_map.entries().len(), key@.len()),
            dialect,
        ) {
            Ok(v) => r matches Ok(x) && x@ == v,
            Err(e) => r matches Err(f) && f.spec_error() == e && f.well_formed(),
        },
{
    let ghost nodes = node_map.entries();
    let ghost fuel = walk_fuel(nodes.len(), key@.len());
    if node_map.get(&root).is_none() {
        assert(fuel > 0);
        return Err(WalkFailure::MissingNode(root));
    }
    let max_steps = walk_step_bound(node_map.len(), key.len());
    let mut current_hash = root;
    let mut path_offset: usize = 0;
    let mut steps: usize = 0;
    loop
        invariant
            nodes == node_map.entries(),
            fuel == max_steps,
            fuel == walk_fuel(nodes.len(), key@.len()),
            all_nibbles(key@),
            path_offset <= key@.len(),
            steps <= max_steps,
            spec_walk(nodes, root@, key@, 0, fuel, dialect) == spec_walk(
                nodes,
                current_hash@,
                key@,
                path_offset as int,
                (fuel - steps) as nat,
                dialect,
            ),
        decreases max_steps - steps,
    {
        if steps == max_steps {
            assert(spec_walk(nodes, current_hash@, key@, path_offset as int, 0, dialect)
                == Err::<Seq<u8>, WalkError>(WalkError::Cycle));
            return Err(WalkFailure::Cycle);
        }
        let ghost f = (fuel - steps) as nat;
        let ghost here = spec_walk(nodes, current_hash@, key@, path_offset as int, f, dialect);
        assert(f > 0);
        steps = steps + 1;
        let node = match node_map.get(&current_hash) {
            Some(n) => n,
            None => {
                assert(spec_lookup(nodes, current_hash@) is None);
                assert(here == Err::<Seq<u8>, WalkError>(WalkError::MissingNode(current_hash@)));
                return Err(WalkFailure::MissingNode(current_hash));
            },
        };
        let decoded = match decode_rlp_list(node) {
            Some(d) => d,
            None => return Err(WalkFailure::BadNode),
        };
        let ghost items = byte_views(decoded@);
        assert(items.len() == decoded@.len());
        let count = decoded.len();
        if count == 2 {
            assert(items[0] == decoded@[0]@ && items[1] == decoded@[1]@);
            let encoded_path = &decoded[0];
            if encoded_path.len() == 0 {
                return Err(WalkFailure::EmptyPath);
            }
            let prefix = encoded_path[0];
            let is_leaf = (prefix & 0x20) != 0;
            let rest = &encoded_path.as_slice()[1..encoded_path.len()];
            assert(rest@ =~= encoded_path@.skip(1));
            let (path_nibbles, _odd) = decode_hex_prefix(prefix, rest);
            let remaining_len = key.len() - path_offset;
            if path_nibbles.len() > remaining_len {
                return Err(WalkFailure::PathTooLong(is_leaf));
            }
            let ghost remaining = key@.skip(path_offset as int);
            assert(key@.subrange(path_offset as int, path_offset + path_nibbles@.len())
                =~= remaining.take(path_nibbles@.len() as int));
            if is_leaf {
                let rest_of_key = &key[path_offset..key.len()];
                assert(rest_of_key@ =~= remaining);
                if path_nibbles.len() != rest_of_key.len() || !matches_at(
                    path_nibbles.as_slice(),
                    key,
                    path_offset,
                ) {
                    proof {
                        lemma_hex_prefix_bounded(prefix, rest@);
                        if path_nibbles@.len() == remaining.len() {
                            assert(remaining.take(path_nibbles@.len() as int) =~= remaining);
                        }
                    }
                    let got = slice_to_vec(rest_of_key);
                    proof {
                        assert forall|j: int| 0 <= j < got@.len() implies #[trigger] got@[j] < 16 by {
                            assert(got@[j] == key@[path_offset + j]);
                        }
                    }
                    return Err(WalkFailure::PathMismatch(true, path_nibbles, got));
                }
                assert(remaining.take(path_nibbles@.len() as int) =~= remaining);
                return Ok(decoded[1].clone());
            }
            if !matches_at(path_nibbles.as_slice(), key, path_offset) {
                let got = slice_to_vec(&key[path_offset..path_offset + path_nibbles.len()]);
                proof {
                    lemma_hex_prefix_bounded(prefix, rest@);
                    assert forall|j: int| 0 <= j < got@.len() implies #[trigger] got@[j] < 16 by {
                        assert(got@[j] == key@[path_offset + j]);
                    }
                }
                return Err(WalkFailure::PathMismatch(false, path_nibbles, got));
            }
            path_offset = path_offset + path_nibbles.len();
            if decoded[1].len() != 32 {
                return Err(WalkFailure::BadExtensionChild(decoded[1].len()));
            }
            current_hash = to_hash(decoded[1].as_slice());
        } else if count == 17 {
            if path_offset >= key.len() {
                assert(items[16] == decoded@[16]@);
                let val = &decoded[16];
                if val.len() <= 1 && (val.len() == 0 || val[0] == 0x80) {
                    return Err(WalkFailure::NoValue);
                }
                return Ok(val.clone());
            }
            let nibble = key[path_offset] as usize;
            assert(key@[path_offset as int] < 16);
            path_offset = path_offset + 1;
            assert(items[nibble as int] == decoded@[nibble as int]@);
            let child = &decoded[nibble];
            if child.len() <= 1 && (child.len() == 0 || child[0] == 0x80) {
                return Err(WalkFailure::DeadEnd(nibble));
            }
            if child.len() == 32 {
                current_hash = to_hash(child.as_slice());
            } else {
                current_hash = keccak256(child.as_slice());
            }
        } else {
            return Err(WalkFailure::UnknownNode(count));
        }
    }
}

/// The nibbles of a hex-prefix path are nibbles.
pub proof fn lemma_hex_prefix_bounded(prefix: u8, encoded: Seq<u8>)
    ensures
        all_nibbles(spec_hex_prefix_nibbles(prefix, encoded)),
{
    lemma_nibbles_bounded(encoded);
    let n = spec_nibbles(encoded);
    if prefix & 0x10 != 0 {
        assert(prefix & 0x0f < 16) by (bit_vector);
        let s = seq![prefix & 0x0f] + n;
        assert forall|i: int| 0 <= i < s.len() implies #[trigger] s[i] < 16 by {
            if i > 0 {
                assert(s[i] == n[i - 1]);
            }
        }
    }
}

/// Walks the trie and renders a failure as the dialect's message; a missing
/// root node is reported whatever the key holds.
pub fn walk_trie(node_map: &NodeMap, root: [u8; 32], nibbles: &[u8], dialect: Dialect) -> (r:
    Result<Vec<u8>, String>)
    requires
        all_nibbles(nibbles@) || spec_lookup(node_map.entries(), root@) is None,
    ensures
        match spec_walk_result(node_map.entries(), root@, nibbles@, dialect) {
            Ok(v) => r matches Ok(x) && x@ == v,
            Err(m) => r matches Err(e) && e@ == m,
        },
{
    match walk(node_map, root, nibbles, dialect) {
        Ok(v) => Ok(v),
        Err(f) => Err(f.message(dialect)),
    }
}

/// Each node paired with its Keccak-256 hash, in order.
pub open spec fn hashed_nodes(nodes: Seq<Seq<u8>>) -> Seq<(Seq<u8>, Seq<u8>)> {
    Seq::new(nodes.len(), |i: int| (keccak256_digest(nodes[i]), nodes[i]))
}

/// Stores every node of a proof under its Keccak-256 hash.
pub fn hash_nodes(nodes: &Vec<Vec<u8>>) -> (m: NodeMap)
    ensures
        m.entries() == hashed_nodes(byte_views(nodes@)),
{
    let mut m = NodeMap::new();
    let mut i: usize = 0;
    while i < nodes.len()
        invariant
            i <= nodes@.len(),
            m.entries() == hashed_nodes(byte_views(nodes@.subrange(0, i as int))),
        decreases nodes.len() - i,
    {
        let hash = keccak256(nodes[i].as_slice());
        m.insert(hash, nodes[i].as_slice());
        assert(hashed_nodes(byte_views(nodes@.subrange(0, i + 1))) =~= hashed_nodes(
            byte_views(nodes@.subrange(0, i as int)),
        ).push((hash@, nodes@[i as int]@)));
        i = i + 1;
    }
    assert(nodes@.subrange(0, nodes.len() as int) =~= nodes@);
    m
}

} // verus!
