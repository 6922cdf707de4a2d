//! Encoding of host text for the native boundary.
//!
//! The engine takes null-terminated byte strings. A text whose encoded
//! bytes contain a null byte cannot cross that boundary: the check here
//! rejects it before any native call is made. A text that passes is handed
//! over as its bytes followed by one terminating null byte, together with
//! its exact byte length, so the engine never depends on the terminator
//! for the length.

use vstd::prelude::*;
use vstd::string::StrSliceExecFns;
use vstd::string::StringSliceAdditionalSpecFns;

verus! {

/// No byte of the sequence is the null byte, so the sequence can stand
/// before a null terminator without being cut short.
pub open spec fn nul_free(bytes: Seq<u8>) -> bool {
    forall|i: int| 0 <= i < bytes.len() ==> bytes[i] != 0
}

/// The bytes handed to the native boundary for a text: its encoded bytes
/// with one terminating null byte.
pub open spec fn c_bytes_of(bytes: Seq<u8>) -> Seq<u8> {
    bytes.push(0)
}

/// Encodes a text for the native boundary: its bytes followed by one null
/// terminator, or nothing if the bytes themselves contain a null byte.
pub fn to_c_bytes(s: &str) -> (r: Option<Vec<u8>>)
    ensures
        r matches Some(v) ==> nul_free(s.spec_bytes()) && v@ == c_bytes_of(s.spec_bytes()),
        r is None ==> !nul_free(s.spec_bytes()),
{
    let bytes: Vec<u8> = s.as_bytes_vec();
    let n: usize = bytes.len();
    let mut out: Vec<u8> = Vec::new();
    let mut i: usize = 0;
    while i < n
        invariant
            n == bytes@.len(),
            bytes@ == s.spec_bytes(),
            0 <= i <= n,
            out@ == bytes@.subrange(0, i as int),
            nul_free(out@),
        decreases n - i,
    {
        let b: u8 = bytes[i];
        if b == 0 {
            return None;
        }
        out.push(b);
        proof {
            assert(out@ =~= bytes@.subrange(0, i as int + 1));
        }
        i = i + 1;
    }
    proof {
        assert(out@ =~= bytes@);
    }
    out.push(0);
    Some(out)
}

} // verus!
