//! Decoding of Recursive Length Prefix (RLP) data, as the trie verifiers read it.
use vstd::prelude::*;
use vstd::slice::slice_to_vec;

verus! {

/// The big-endian value of `s`, computed in `usize` with every shift
/// discarding the bits pushed out at the top.
pub open spec fn be_usize(s: Seq<u8>) -> usize
    decreases s.len(),
{
    if s.len() == 0 {
        0
    } else {
        ((be_usize(s.drop_last()) << 8usize) | (s.last() as usize)) as usize
    }
}

/// The header of an RLP string or list whose type marker starts at `offset`
/// (0x80 for strings, 0xc0 for lists): the length of the prefix and of the
/// payload, provided both lie within `data`.
pub open spec fn spec_header(data: Seq<u8>, offset: u8) -> Option<(int, int)> {
    if data.len() == 0 || data[0] < offset {
        None
    } else {
        let diff = data[0] - offset;
        if diff <= 55 {
            if data.len() < 1 + diff {
                None
            } else {
                Some((1, diff))
            }
        } else {
            let len_size = diff - 55;
            if data.len() < 1 + len_size {
                None
            } else {
                let payload_len = be_usize(data.subrange(1, 1 + len_size)) as int;
                if data.len() < 1 + len_size + payload_len {
                    None
                } else {
                    Some((1 + len_size, payload_len))
                }
            }
        }
    }
}

/// The first RLP item of `data`: its content (the payload of a string, the whole
/// encoding of a list, header and payload) and the number of bytes it takes.
pub open spec fn spec_item(data: Seq<u8>) -> Option<(Seq<u8>, int)> {
    if data.len() == 0 {
        None
    } else if data[0] < 0x80 {
        Some((data.subrange(0, 1), 1))
    } else if data[0] < 0xb8 {
        let len = data[0] - 0x80;
        if data.len() < 1 + len {
            None
        } else {
            Some((data.subrange(1, 1 + len), 1 + len))
        }
    } else if data[0] < 0xc0 {
        let len_of_len = data[0] - 0xb7;
        if data.len() < 1 + len_of_len {
            None
        } else {
            let len = be_usize(data.subrange(1, 1 + len_of_len)) as int;
            if data.len() < 1 + len_of_len + len {
                None
            } else {
                Some((data.subrange(1 + len_of_len, 1 + len_of_len + len), 1 + len_of_len + len))
            }
        }
    } else {
        match spec_header(data, 0xc0) {
            None => None,
            Some((prefix_len, payload_len)) => Some(
                (data.subrange(0, prefix_len + payload_len), prefix_len + payload_len),
            ),
        }
    }
}

/// The items of a list payload, read one after the other until the payload
/// is used up.
pub open spec fn spec_items(payload: Seq<u8>) -> Option<Seq<Seq<u8>>>
    decreases payload.len(),
{
    if payload.len() == 0 {
        Some(Seq::empty())
    } else {
        match spec_item(payload) {
            None => None,
            Some((item, n)) => if 0 < n <= payload.len() {
                match spec_items(payload.skip(n)) {
                    None => None,
                    Some(rest) => Some(seq![item] + rest),
                }
            } else {
                None
            },
        }
    }
}

/// The items of the RLP list that `data` starts with.
pub open spec fn spec_list(data: Seq<u8>) -> Option<Seq<Seq<u8>>> {
    if data.len() == 0 || data[0] < 0xc0 {
        None
    } else {
        match spec_header(data, 0xc0) {
            None => None,
            Some((prefix_len, payload_len)) => spec_items(
                data.subrange(prefix_len, prefix_len + payload_len),
            ),
        }
    }
}

/// The contents of a sequence of byte vectors.
pub open spec fn byte_views(v: Seq<Vec<u8>>) -> Seq<Seq<u8>> {
    Seq::new(v.len(), |i: int| v[i]@)
}

/// `items` in front of what `rest` holds, if it holds anything.
pub open spec fn prepend_items(items: Seq<Seq<u8>>, rest: Option<Seq<Seq<u8>>>) -> Option<
    Seq<Seq<u8>>,
> {
    match rest {
        None => None,
        Some(r) => Some(items + r),
    }
}

/// An item, when there is one, takes at least one byte and no more than there are.
pub proof fn lemma_item_size(data: Seq<u8>)
    ensures
        spec_item(data) matches Some((item, n)) ==> 0 < n <= data.len() && item.len()
            <= n,
{
}

/// Reads `bytes` as a big-endian number, shifting left by eight bits per byte.
pub fn bytes_to_usize(bytes: &[u8]) -> (result: usize)
    ensures
        result == be_usize(bytes@),
{
    let mut result: usize = 0;
    let mut i: usize = 0;
    while i < bytes.len()
        invariant
            i <= bytes.len(),
            result == be_usize(bytes@.subrange(0, i as int)),
        decreases bytes.len() - i,
    {
        assert(bytes@.subrange(0, i + 1).drop_last() =~= bytes@.subrange(0, i as int));
        result = (result << 8usize) | (bytes[i] as usize);
        i = i + 1;
    }
    assert(bytes@.subrange(0, bytes.len() as int) =~= bytes@);
    result
}

/// Reads the header of the string or list that `data` starts with and returns
/// its payload together with the number of bytes that header and payload take.
pub fn read_rlp_payload(data: &[u8], offset: u8) -> (r: Option<(&[u8], usize)>)
    ensures
        match spec_header(data@, offset) {
            None => r is None,
            Some((prefix_len, payload_len)) => r matches Some((payload, consumed)) && payload@
                == data@.subrange(prefix_len, prefix_len + payload_len) && consumed == prefix_len
                + payload_len,
        },
{
    if data.len() == 0 {
        return None;
    }
    let first = data[0];
    if first < offset {
        return None;
    }
    let diff = (first - offset) as usize;
    let prefix_len: usize;
    let payload_len: usize;
    if diff <= 55 {
        payload_len = diff;
        prefix_len = 1;
    } else {
        let len_size = diff - 55;
        if data.len() < 1 + len_size {
            return None;
        }
        payload_len = bytes_to_usize(&data[1..1 + len_size]);
        prefix_len = 1 + len_size;
    }
    if data.len() - prefix_len < payload_len {
        return None;
    }
    Some((&data[prefix_len..prefix_len + payload_len], prefix_len + payload_len))
}

/// Reads the first item of `data`: for a string its payload, for a list its
/// whole encoding (header and payload); and the bytes it takes.
pub fn read_rlp_item(data: &[u8]) -> (r: Option<(&[u8], usize)>)
    ensures
        match spec_item(data@) {
            None => r is None,
            Some((item, n)) => r matches Some((s, consumed)) && s@ == item && consumed == n,
        },
{
    if data.len() == 0 {
        return None;
    }
    let first = data[0];
    if first < 0x80 {
        return Some((&data[0..1], 1));
    }
    if first < 0xb8 {
        let len = (first - 0x80) as usize;
        if data.len() < 1 + len {
            return None;
        }
        return Some((&data[1..1 + len], 1 + len));
    }
    if first < 0xc0 {
        let len_of_len = (first - 0xb7) as usize;
        if data.len() < 1 + len_of_len {
            return None;
        }
        let len = bytes_to_usize(&data[1..1 + len_of_len]);
        if data.len() - (1 + len_of_len) < len {
            return None;
        }
        return Some((&data[1 + len_of_len..1 + len_of_len + len], 1 + len_of_len + len));
    }
    let consumed = match read_rlp_payload(data, 0xc0) {
        Some((_, c)) => c,
        None => return None,
    };
    Some((&data[0..consumed], consumed))
}

/// Decodes the RLP list that `data` starts with into the contents of its items.
pub fn decode_rlp_list(data: &[u8]) -> (r: Option<Vec<Vec<u8>>>)
    ensures
        match spec_list(data@) {
            None => r is None,
            Some(items) => r matches Some(v) && byte_views(v@) == items,
        },
{
    if data.len() == 0 {
        return None;
    }
    let first = data[0];
    if first < 0xc0 {
        return None;
    }
    let payload = match read_rlp_payload(data, 0xc0) {
        Some((p, _)) => p,
        None => return None,
    };
    let mut items: Vec<Vec<u8>> = Vec::new();
    let mut pos: usize = 0;
    assert(payload@.skip(0) =~= payload@);
    while pos < payload.len()
        invariant
            pos <= payload.len(),
            spec_list(data@) == spec_items(payload@),
            spec_items(payload@) == prepend_items(
                byte_views(items@),
                spec_items(payload@.skip(pos as int)),
            ),
        decreases payload.len() - pos,
    {
        let rest = &payload[pos..payload.len()];
        assert(rest@ =~= payload@.skip(pos as int));
        let (item, consumed) = match read_rlp_item(rest) {
            Some(x) => x,
            None => {
                return None;
            },
        };
        proof {
            lemma_item_size(rest@);
            assert(payload@.skip(pos as int).skip(consumed as int) =~= payload@.skip(
                pos + consumed,
            ));
        }
        let ghost old_items = byte_views(items@);
        items.push(slice_to_vec(item));
        assert(byte_views(items@) =~= old_items + seq![item@]);
        assert(old_items + (seq![item@] + spec_items(payload@.skip(pos + consumed))->0)
            =~= byte_views(items@) + spec_items(payload@.skip(pos + consumed))->0);
        pos = pos + consumed;
    }
    assert(payload@.skip(pos as int) =~= Seq::<u8>::empty());
    assert(byte_views(items@) + Seq::<Seq<u8>>::empty() =~= byte_views(items@));
    Some(items)
}

} // verus!
