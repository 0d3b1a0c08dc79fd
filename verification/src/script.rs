//! The one script transformation the populator needs from the outside
//! world: building the pay-to-witness-script-hash script of a witness
//! script (it embeds a SHA-256 digest, so its value is only named here,
//! never restated).

use vstd::prelude::*;

verus! {

/// The P2WSH output script of `script`: `OP_0` followed by the 32-byte
/// push of the script's SHA-256 digest. The digest keeps this from being
/// written out as a spec function; it is a function of the script bytes
/// alone.
pub uninterp spec fn p2wsh_of(script: Seq<u8>) -> Seq<u8>;

/// Relies on bitcoin's `Script::to_p2wsh`: it builds the P2WSH output
/// script for the given script bytes, and its result depends on those
/// bytes alone.
#[verifier::external_body]
pub(crate) fn to_p2wsh(script: &Vec<u8>) -> (r: Vec<u8>)
    ensures
        r@ == p2wsh_of(script@),
{
    bitcoin::ScriptBuf::from_bytes(script.clone()).to_p2wsh().into_bytes()
}

} // verus!
