//! Rendering of bytes, nibbles and counts into the text of messages.
use vstd::prelude::*;

verus! {

/// The lower-case hexadecimal digit naming `d` (for `d` below 16).
pub open spec fn spec_hex_digit(d: u8) -> Seq<char> {
    if d == 0 {
        "0"@
    } else if d == 1 {
        "1"@
    } else if d == 2 {
        "2"@
    } else if d == 3 {
        "3"@
    } else if d == 4 {
        "4"@
    } else if d == 5 {
        "5"@
    } else if d == 6 {
        "6"@
    } else if d == 7 {
        "7"@
    } else if d == 8 {
        "8"@
    } else if d == 9 {
        "9"@
    } else if d == 10 {
        "a"@
    } else if d == 11 {
        "b"@
    } else if d == 12 {
        "c"@
    } else if d == 13 {
        "d"@
    } else if d == 14 {
        "e"@
    } else {
        "f"@
    }
}

/// One hexadecimal digit per nibble, in order.
pub open spec fn spec_nibbles_hex(n: Seq<u8>) -> Seq<char>
    decreases n.len(),
{
    if n.len() == 0 {
        Seq::empty()
    } else {
        spec_nibbles_hex(n.drop_last()) + spec_hex_digit(n.last())
    }
}

/// Two hexadecimal digits per byte, high nibble first.
pub open spec fn spec_bytes_hex(b: Seq<u8>) -> Seq<char>
    decreases b.len(),
{
    if b.len() == 0 {
        Seq::empty()
    } else {
        spec_bytes_hex(b.drop_last()) + spec_hex_digit(b.last() >> 4) + spec_hex_digit(
            b.last() & 0x0f,
        )
    }
}

/// The decimal digits of `n`, without leading zeros.
pub open spec fn spec_decimal(n: nat) -> Seq<char>
    decreases n,
{
    if n < 10 {
        spec_hex_digit(n as u8)
    } else {
        spec_decimal(n / 10) + spec_hex_digit((n % 10) as u8)
    }
}

/// All elements of `n` are nibbles.
pub open spec fn all_nibbles(n: Seq<u8>) -> bool {
    forall|i: int| 0 <= i < n.len() ==> #[trigger] n[i] < 16
}

/// The hexadecimal digit naming `d`.
pub fn hex_digit(d: u8) -> (s: &'static str)
    requires
        d < 16,
    ensures
        s@ == spec_hex_digit(d),
{
    match d {
        0 => "0",
        1 => "1",
        2 => "2",
        3 => "3",
        4 => "4",
        5 => "5",
        6 => "6",
        7 => "7",
        8 => "8",
        9 => "9",
        10 => "a",
        11 => "b",
        12 => "c",
        13 => "d",
        14 => "e",
        _ => "f",
    }
}

/// Renders a sequence of nibbles as hexadecimal digits.
pub fn nibbles_hex(n: &[u8]) -> (s: String)
    requires
        all_nibbles(n@),
    ensures
        s@ == spec_nibbles_hex(n@),
{
    let mut s = String::new();
    let mut i: usize = 0;
    while i < n.len()
        invariant
            i <= n.len(),
            all_nibbles(n@),
            s@ == spec_nibbles_hex(n@.subrange(0, i as int)),
        decreases n.len() - i,
    {
        assert(n@.subrange(0, i + 1).drop_last() =~= n@.subrange(0, i as int));
        s.append(hex_digit(n[i]));
        i = i + 1;
    }
    assert(n@.subrange(0, n.len() as int) =~= n@);
    s
}

/// Renders a 32-byte hash as 64 hexadecimal digits.
pub fn hex32(hash: &[u8; 32]) -> (s: String)
    ensures
        s@ == spec_bytes_hex(hash@),
{
    let mut s = String::new();
    let mut i: usize = 0;
    while i < 32
        invariant
            i <= 32,
            hash@.len() == 32,
            s@ == spec_bytes_hex(hash@.subrange(0, i as int)),
        decreases 32 - i,
    {
        let b = hash[i];
        assert(hash@.subrange(0, i + 1).drop_last() =~= hash@.subrange(0, i as int));
        assert(b >> 4 < 16 && b & 0x0f < 16) by (bit_vector);
        s.append(hex_digit(b >> 4));
        s.append(hex_digit(b & 0x0f));
        i = i + 1;
    }
    assert(hash@.subrange(0, 32) =~= hash@);
    s
}

/// Appends the decimal digits of `n` to `s`.
pub fn push_decimal(s: &mut String, n: u64)
    ensures
        final(s)@ == old(s)@ + spec_decimal(n as nat),
    decreases n,
{
    if n >= 10 {
        push_decimal(s, n / 10);
    }
    let d = (n % 10) as u8;
    s.append(hex_digit(d));
    if n < 10 {
        assert(n as u8 == d);
    }
}

/// Appends a string slice to `s`, returning the result.
pub fn concat_str(s: String, t: &str) -> (r: String)
    ensures
        r@ == s@ + t@,
{
    let mut s = s;
    s.append(t);
    s
}

/// Appends one string to another, returning the result.
pub fn concat_string(s: String, t: String) -> (r: String)
    ensures
        r@ == s@ + t@,
{
    let mut s = s;
    s.append(t.as_str());
    s
}

/// A size in bytes as the listing shows it: whole mebibytes from one MiB up,
/// else whole kibibytes from one KiB up, else bytes.
pub open spec fn spec_human_size(bytes: u64) -> Seq<char> {
    if bytes >= 1_048_576 {
        spec_decimal((bytes / 1_048_576) as nat) + " MiB"@
    } else if bytes >= 1024 {
        spec_decimal((bytes / 1024) as nat) + " KiB"@
    } else {
        spec_decimal(bytes as nat) + " B"@
    }
}

/// Renders a size in bytes in the largest binary unit it reaches.
pub fn human_size(bytes: u64) -> (s: String)
    ensures
        s@ == spec_human_size(bytes),
{
    let mut s = String::new();
    if bytes >= 1_048_576 {
        push_decimal(&mut s, bytes / 1_048_576);
        concat_str(s, " MiB")
    } else if bytes >= 1024 {
        push_decimal(&mut s, bytes / 1024);
        concat_str(s, " KiB")
    } else {
        push_decimal(&mut s, bytes);
        concat_str(s, " B")
    }
}

} // verus!
