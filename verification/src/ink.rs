//! Compatibility surface for exporting proof verifiers as ink smart
//! contracts. The template rendering itself lives with the proof-system
//! backends outside this crate; here are the field and scheme markers and
//! the ABI-version selector.

use vstd::prelude::*;
use vstd::string::StrSliceExecFns;
use crate::field::{Bn128Field, Field};

verus! {

/// Fields whose curves the ink verifier library supports.
pub trait InkCompatibleField: Field {}

impl InkCompatibleField for Bn128Field {}

/// The minimal proof-scheme surface this module relies on: a scheme carries
/// a verification-key type of its own. Key generation, proving and
/// verification live with the backends outside this crate.
pub trait Scheme<T: Field> {
    type VerificationKey;
}

/// Proof schemes that can render an ink verifier contract from a
/// verification key, as a pair of contract source and manifest; implemented
/// by the proof-system backends.
pub trait InkCompatibleScheme<T: InkCompatibleField>: Scheme<T> {
    fn export_ink_verifier(vk: Self::VerificationKey, abi: InkAbi) -> (String, String);
}

/// The ink ABI version a contract is generated for.
pub enum InkAbi {
    V1,
    V2,
}

impl InkAbi {
    /// Selects an ABI version by name; only `v1` and `v2` exist, and any
    /// other name is rejected.
    pub fn from(v: &str) -> (r: Result<Self, &'static str>)
        ensures
            v@ == "v1"@ ==> r matches Ok(InkAbi::V1),
            v@ == "v2"@ ==> r matches Ok(InkAbi::V2),
            v@ != "v1"@ && v@ != "v2"@ ==> (r matches Err(m) && m@ == "Invalid ABI version"@),
    {
        proof {
            reveal_strlit("v1");
            reveal_strlit("v2");
        }
        let n = v.unicode_len();
        if n == 2 {
            let c0 = v.get_char(0);
            let c1 = v.get_char(1);
            if c0 == 'v' && c1 == '1' {
                proof {
                    assert(v@ =~= "v1"@);
                }
                Ok(InkAbi::V1)
            } else if c0 == 'v' && c1 == '2' {
                proof {
                    assert(v@ =~= "v2"@);
                }
                Ok(InkAbi::V2)
            } else {
                Err("Invalid ABI version")
            }
        } else {
            Err("Invalid ABI version")
        }
    }
}

} // verus!
