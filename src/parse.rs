use vstd::prelude::*;
use crate::model::AllocationType;
use vstd::string::StringSliceAdditionalSpecFns;

verus! {

/// `b` with an ASCII capital letter turned into its small letter; every
/// other byte is kept.
pub open spec fn lower_byte(b: u8) -> u8 {
    if 65 <= b <= 90 {
        (b + 32) as u8
    } else {
        b
    }
}

/// Whether `s` spells `name` once its ASCII capitals are made small.
pub open spec fn matches_name(s: Seq<u8>, name: Seq<u8>) -> bool {
    s.len() == name.len() && forall|i: int| 0 <= i < s.len() ==> lower_byte(s[i]) == name[i]
}

/// The policy that the text `s` names, whatever the case of its ASCII
/// letters: "fifo", "lru" or "opt".
pub open spec fn policy_named(s: Seq<u8>) -> Option<AllocationType> {
    if matches_name(s, "fifo".spec_bytes()) {
        Some(AllocationType::FIFO)
    } else if matches_name(s, "lru".spec_bytes()) {
        Some(AllocationType::LRU)
    } else if matches_name(s, "opt".spec_bytes()) {
        Some(AllocationType::OPT)
    } else {
        None
    }
}

fn equals_ignoring_case(s: &[u8], name: &[u8]) -> (r: bool)
    ensures
        r == matches_name(s@, name@),
{
    if s.len() != name.len() {
        return false;
    }
    let mut i: usize = 0;
    while i < s.len()
        invariant
            i <= s@.len(),
            s@.len() == name@.len(),
            forall|k: int| 0 <= k < i ==> lower_byte(s@[k]) == name@[k],
        decreases s@.len() - i,
    {
        let b = s[i];
        let lower: u8 = if 65 <= b && b <= 90 {
            b + 32
        } else {
            b
        };
        if lower != name[i] {
            return false;
        }
        i = i + 1;
    }
    true
}

impl AllocationType {
    /// The policy named by `s`, any case: "fifo", "lru" or "opt"; `None`
    /// for any other text.
    pub fn from_name(s: &str) -> (r: Option<AllocationType>)
        ensures
            r == policy_named(s.spec_bytes()),
    {
        let b = s.as_bytes();
        if equals_ignoring_case(b, "fifo".as_bytes()) {
            Some(AllocationType::FIFO)
        } else if equals_ignoring_case(b, "lru".as_bytes()) {
            Some(AllocationType::LRU)
        } else if equals_ignoring_case(b, "opt".as_bytes()) {
            Some(AllocationType::OPT)
        } else {
            None
        }
    }
}

} // verus!
