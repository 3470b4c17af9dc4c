//! Reading proof bytes from a proof file: raw bytes, hexadecimal text, or a
//! JSON document that holds them.
use vstd::prelude::*;

use crate::text::concat_string;
use vstd::utf8::encode_utf8;

verus! {

/// The value of an ASCII hexadecimal digit, either case.
pub open spec fn hex_digit_value(c: u8) -> Option<u8> {
    if 0x30 <= c <= 0x39 {
        Some((c - 0x30) as u8)
    } else if 0x61 <= c <= 0x66 {
        Some((c - 0x61 + 10) as u8)
    } else if 0x41 <= c <= 0x46 {
        Some((c - 0x41 + 10) as u8)
    } else {
        None
    }
}

/// The bytes that hexadecimal text names: two digits per byte, high digit
/// first; nothing for an odd length or a character that is not a digit.
pub open spec fn spec_hex_decode(text: Seq<u8>) -> Option<Seq<u8>> {
    if text.len() % 2 != 0 {
        None
    } else if forall|i: int| 0 <= i < text.len() ==> (#[trigger] hex_digit_value(text[i])) is Some {
        Some(
            Seq::new(
                text.len() / 2,
                |i: int|
                    (hex_digit_value(text[2 * i])->0 * 16 + hex_digit_value(text[2 * i + 1])->0) as u8,
            ),
        )
    } else {
        None
    }
}

/// `hex::decode`. Trusted: on text that `spec_hex_decode` reads it gives those
/// bytes, on any other text an error, as the crate's source shows; the error's
/// wording (`FromHexError`'s `Display`) is not stated.
#[verifier::external_body]
pub(crate) fn hex_decode(text: &str) -> (r: Result<Vec<u8>, String>)
    ensures
        match spec_hex_decode(encode_utf8(text@)) {
            Some(b) => r matches Ok(v) && v@ == b,
            None => r is Err,
        },
{
    hex::decode(text).map_err(|e| format!("{e}"))
}

/// `text` without a leading "0x".
pub open spec fn spec_strip_0x(text: Seq<char>) -> Seq<char> {
    if text.len() >= 2 && text[0] == '0' && text[1] == 'x' {
        text.skip(2)
    } else {
        text
    }
}

/// Removes a leading "0x" from `text`.
pub fn strip_0x(text: &str) -> (r: &str)
    ensures
        r@ == spec_strip_0x(text@),
{
    let n = text.unicode_len();
    if n >= 2 && text.get_char(0) == '0' && text.get_char(1) == 'x' {
        text.substring_char(2, n)
    } else {
        text
    }
}

/// Reads a proof written in hexadecimal, with or without a leading "0x".
pub fn decode_hex_proof(text: &str) -> (r: Result<Vec<u8>, String>)
    ensures
        match spec_hex_decode(encode_utf8(spec_strip_0x(text@))) {
            Some(b) => r matches Ok(v) && v@ == b,
            None => r matches Err(e) && e@.len() >= 19 && e@.take(19) == "invalid hex proof: "@,
        },
{
    let digits = strip_0x(text);
    match hex_decode(digits) {
        Ok(v) => Ok(v),
        Err(e) => {
            let m = concat_string(String::from_str("invalid hex proof: "), e);
            proof {
                reveal_strlit("invalid hex proof: ");
                assert(m@.take(19) =~= "invalid hex proof: "@);
            }
            Err(m)
        },
    }
}

/// What is read of a JSON proof file.
pub enum ProofDocument {
    /// A top-level array: each element as an unsigned integer, when it is one.
    Array(Vec<Option<u64>>),
    /// A top-level object: its "proof" field when that is a string, and its
    /// "proof_bytes" field when there is one (with its elements as unsigned
    /// integers when it is an array).
    Object { proof: Option<String>, proof_bytes: Option<Option<Vec<Option<u64>>>> },
    /// Any other JSON value.
    Other,
}

/// Bytes from JSON numbers: each number cut to its low eight bits, anything
/// that is not an unsigned integer read as zero.
pub open spec fn spec_number_bytes(values: Seq<Option<u64>>) -> Seq<u8> {
    Seq::new(
        values.len(),
        |i: int|
            match values[i] {
                Some(n) => n as u8,
                None => 0u8,
            },
    )
}

/// Turns JSON numbers into bytes, as `spec_number_bytes` says.
pub fn number_bytes(values: &Vec<Option<u64>>) -> (b: Vec<u8>)
    ensures
        b@ == spec_number_bytes(values@),
{
    let mut b: Vec<u8> = Vec::new();
    let mut i: usize = 0;
    while i < values.len()
        invariant
            i <= values@.len(),
            b@ == spec_number_bytes(values@.take(i as int)),
        decreases values.len() - i,
    {
        let byte: u8 = match values[i] {
            Some(n) => n as u8,
            None => 0,
        };
        b.push(byte);
        i = i + 1;
        assert(b@ =~= spec_number_bytes(values@.take(i as int)));
    }
    assert(values@.take(i as int) =~= values@);
    b
}

/// The proof bytes of a proof file whose contents are `raw`: for a JSON file
/// (`json` is what it holds), the bytes of a top-level array, else the hex
/// text of an object's "proof" string, else the numbers of its "proof_bytes"
/// field (none when that is not an array), else the file itself; for any other
/// file, the file itself.
pub fn read_proof_bytes(raw: Vec<u8>, json: Option<ProofDocument>) -> (r: Result<Vec<u8>, String>)
    ensures
        match json {
            Some(ProofDocument::Array(values)) => r matches Ok(b) && b@ == spec_number_bytes(
                values@,
            ),
            Some(ProofDocument::Object { proof: Some(text), .. }) => match spec_hex_decode(
                encode_utf8(spec_strip_0x(text@)),
            ) {
                Some(b) => r matches Ok(v) && v@ == b,
                None => r matches Err(e) && e@.len() >= 19 && e@.take(19)
                    == "invalid hex proof: "@,
            },
            Some(ProofDocument::Object { proof: None, proof_bytes: Some(Some(values)) }) => r matches Ok(
                b,
            ) && b@ == spec_number_bytes(values@),
            Some(ProofDocument::Object { proof: None, proof_bytes: Some(None) }) => r matches Ok(b)
                && b@.len() == 0,
            _ => r matches Ok(b) && b@ == raw@,
        },
{
    match json {
        Some(ProofDocument::Array(values)) => Ok(number_bytes(&values)),
        Some(ProofDocument::Object { proof: Some(text), .. }) => decode_hex_proof(text.as_str()),
        Some(ProofDocument::Object { proof: None, proof_bytes: Some(Some(values)) }) => Ok(
            number_bytes(&values),
        ),
        Some(ProofDocument::Object { proof: None, proof_bytes: Some(None) }) => Ok(Vec::new()),
        _ => Ok(raw),
    }
}

} // verus!
