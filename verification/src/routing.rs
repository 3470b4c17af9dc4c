//! Choosing the verifier a request goes to.
use vstd::prelude::*;

use crate::keyed::str_eq;
use crate::registry::VerifierMetadata;

verus! {

/// The position of the first loaded verifier whose proof type is
/// `proof_type_id`, if any is.
pub fn find_verifier(loaded: &Vec<&VerifierMetadata>, proof_type_id: &str) -> (r: Option<usize>)
    ensures
        match r {
            Some(i) => i < loaded@.len() && loaded@[i as int].proof_type_id@ == proof_type_id@
                && forall|j: int| 0 <= j < i ==> loaded@[j].proof_type_id@ != proof_type_id@,
            None => forall|j: int|
                0 <= j < loaded@.len() ==> loaded@[j].proof_type_id@ != proof_type_id@,
        },
{
    let mut i: usize = 0;
    while i < loaded.len()
        invariant
            i <= loaded@.len(),
            forall|j: int| 0 <= j < i ==> loaded@[j].proof_type_id@ != proof_type_id@,
        decreases loaded.len() - i,
    {
        if str_eq(loaded[i].proof_type_id.as_str(), proof_type_id) {
            return Some(i);
        }
        i = i + 1;
    }
    None
}

} // verus!
