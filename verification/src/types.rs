//! The verdict of a verification request.
use vstd::prelude::*;

use crate::abi::{VERIFY_ERROR, VERIFY_INVALID, VERIFY_VALID};
use crate::text::concat_str;
use vstd::utf8::{decode_utf8, valid_utf8};

pub use crate::registry::VerifierMetadata;

verus! {

/// The characters `String::from_utf8_lossy` makes of `bytes`.
pub uninterp spec fn utf8_lossy(bytes: Seq<u8>) -> Seq<char>;

/// Whether `c` has the Unicode property White_Space, which `str::trim` removes.
pub open spec fn is_white_space(c: char) -> bool {
    let u = c as u32;
    ||| 0x09 <= u <= 0x0d
    ||| u == 0x20
    ||| u == 0x85
    ||| u == 0xa0
    ||| u == 0x1680
    ||| 0x2000 <= u <= 0x200a
    ||| u == 0x2028
    ||| u == 0x2029
    ||| u == 0x202f
    ||| u == 0x205f
    ||| u == 0x3000
}

/// `s` without its leading white space.
pub open spec fn trim_start_white(s: Seq<char>) -> Seq<char>
    decreases s.len(),
{
    if s.len() > 0 && is_white_space(s[0]) {
        trim_start_white(s.drop_first())
    } else {
        s
    }
}

/// `s` without its trailing white space.
pub open spec fn trim_end_white(s: Seq<char>) -> Seq<char>
    decreases s.len(),
{
    if s.len() > 0 && is_white_space(s.last()) {
        trim_end_white(s.drop_last())
    } else {
        s
    }
}

/// The characters `str::trim` leaves of `s`: `s` without its leading and
/// trailing white space.
pub open spec fn trim_whitespace(s: Seq<char>) -> Seq<char> {
    trim_end_white(trim_start_white(s))
}

/// `String::from_utf8_lossy`. Trusted: the result is the name `utf8_lossy` of
/// the bytes, and, as the documentation says, valid UTF-8 comes back decoded
/// unchanged; how invalid sequences are replaced is not stated.
#[verifier::external_body]
pub(crate) fn from_utf8_lossy(bytes: &[u8]) -> (s: String)
    ensures
        s@ == utf8_lossy(bytes@),
        valid_utf8(bytes@) ==> s@ == decode_utf8(bytes@),
{
    String::from_utf8_lossy(bytes).into_owned()
}

/// `str::trim`. Trusted: as its documentation says, the result is `s` with the
/// leading and trailing characters of the Unicode White_Space property removed.
#[verifier::external_body]
pub(crate) fn trim(s: &str) -> (r: String)
    ensures
        r@ == trim_whitespace(s@),
{
    s.trim().to_string()
}

/// `s` without its trailing NUL characters.
pub open spec fn strip_trailing_nul(s: Seq<char>) -> Seq<char>
    decreases s.len(),
{
    if s.len() > 0 && s.last() == '\0' {
        strip_trailing_nul(s.drop_last())
    } else {
        s
    }
}

/// Removes the trailing NUL characters of `s`.
pub fn trim_end_nul(s: &str) -> (r: String)
    ensures
        r@ == strip_trailing_nul(s@),
{
    let mut end = s.unicode_len();
    assert(s@.subrange(0, end as int) =~= s@);
    while end > 0 && s.get_char(end - 1) == '\0'
        invariant
            end <= s@.len(),
            strip_trailing_nul(s@) == strip_trailing_nul(s@.subrange(0, end as int)),
        decreases end,
    {
        assert(s@.subrange(0, end as int).drop_last() =~= s@.subrange(0, end - 1));
        end = end - 1;
    }
    s.substring_char(0, end).to_owned()
}

/// Bytes read as UTF-8 text: decoded when they are valid UTF-8, else with
/// the invalid sequences replaced.
pub open spec fn lossy_text(bytes: Seq<u8>) -> Seq<char> {
    if valid_utf8(bytes) {
        decode_utf8(bytes)
    } else {
        utf8_lossy(bytes)
    }
}

/// The message a verifier left in its error buffer, as the host reads it:
/// decoded as UTF-8 (lossily), trailing NULs removed, then trimmed.
pub open spec fn spec_clean_message(bytes: Seq<u8>) -> Seq<char> {
    trim_whitespace(strip_trailing_nul(lossy_text(bytes)))
}

/// The outcome of a verification request.
pub enum VerificationResult {
    Valid,
    Invalid(String),
    Error(String),
}

/// The result for a verifier's status code and error buffer.
pub open spec fn spec_from_code(code: u32, error_msg: Seq<u8>) -> (u32, Seq<char>) {
    let m = spec_clean_message(error_msg);
    if code == VERIFY_VALID {
        (VERIFY_VALID, Seq::empty())
    } else if code == VERIFY_INVALID {
        (VERIFY_INVALID, if m.len() == 0 { "proof verification failed"@ } else { m })
    } else {
        (VERIFY_ERROR, if m.len() == 0 { "unknown verification error"@ } else { m })
    }
}

impl VerificationResult {
    /// Which verdict this is, as a status code, and its reason (empty when valid).
    pub open spec fn spec_parts(&self) -> (u32, Seq<char>) {
        match self {
            VerificationResult::Valid => (VERIFY_VALID, Seq::empty()),
            VerificationResult::Invalid(m) => (VERIFY_INVALID, m@),
            VerificationResult::Error(m) => (VERIFY_ERROR, m@),
        }
    }

    /// Reads a verifier's status code and error buffer: valid, invalid with the
    /// message (or a stock one when it is empty), or an error likewise.
    pub fn from_u32(code: u32, error_msg: &[u8]) -> (r: Self)
        ensures
            r.spec_parts() == spec_from_code(code, error_msg@),
    {
        if code == VERIFY_VALID {
            return VerificationResult::Valid;
        }
        let decoded = from_utf8_lossy(error_msg);
        let stripped = trim_end_nul(decoded.as_str());
        let msg = trim(stripped.as_str());
        if code == VERIFY_INVALID {
            if msg.as_str().is_empty() {
                VerificationResult::Invalid(String::from_str("proof verification failed"))
            } else {
                VerificationResult::Invalid(msg)
            }
        } else {
            if msg.as_str().is_empty() {
                VerificationResult::Error(String::from_str("unknown verification error"))
            } else {
                VerificationResult::Error(msg)
            }
        }
    }

    /// The verdict when no verifier handles the proof type.
    pub fn missing_verifier(proof_type_id: &str) -> (r: Self)
        ensures
            r.spec_parts() == (VERIFY_ERROR, "no verifier found for proof type: "@ + proof_type_id@),
    {
        VerificationResult::Error(concat_str(
            String::from_str("no verifier found for proof type: "),
            proof_type_id,
        ))
    }

    /// The verdict on a call into a verifier: its status code and error buffer
    /// when it ran, an error carrying the reason when it could not be run.
    pub fn from_call(outcome: Result<(u32, Vec<u8>), String>) -> (r: Self)
        ensures
            match outcome {
                Ok((code, msg)) => r.spec_parts() == spec_from_code(code, msg@),
                Err(e) => r.spec_parts() == (VERIFY_ERROR, "verification failed: "@ + e@),
            },
    {
        match outcome {
            Ok((code, msg)) => Self::from_u32(code, msg.as_slice()),
            Err(e) => VerificationResult::Error(concat_str(
                String::from_str("verification failed: "),
                e.as_str(),
            )),
        }
    }

    /// The verdict in words: "valid", "invalid: " or "error: " followed by the reason.
    pub fn describe(&self) -> (s: String)
        ensures
            s@ == match self {
                VerificationResult::Valid => "valid"@,
                VerificationResult::Invalid(m) => "invalid: "@ + m@,
                VerificationResult::Error(m) => "error: "@ + m@,
            },
    {
        match self {
            VerificationResult::Valid => String::from_str("valid"),
            VerificationResult::Invalid(m) => concat_str(String::from_str("invalid: "), m.as_str()),
            VerificationResult::Error(m) => concat_str(String::from_str("error: "), m.as_str()),
        }
    }
}

} // verus!
