//! The legacy/segwit branch: BIP-32 origins for the template's ECDSA keys,
//! and the witness/redeem scripts dictated by the descriptor variant.

use vstd::prelude::*;
use crate::types::{
    origin_keys_unique, origin_map, Descriptor, Input, KeyOrigin, Placeholder, ShInner,
};
use crate::model::{bip32_after, legacy_updated};
use crate::entries::{clone_bytes, clone_path, upsert_origin};
use crate::script::to_p2wsh;

verus! {

/// Populates the input for a non-Taproot descriptor, exactly as
/// [`legacy_updated`] describes. The Taproot fields are untouched.
pub(crate) fn apply_legacy(descriptor: &Descriptor, template: &Vec<Placeholder>, input: &mut Input)
    requires
        !(descriptor is Tr),
        old(input).wf(),
    ensures
        final(input).wf(),
        final(input)@ == legacy_updated(*descriptor, template@, old(input)@),
{
    let ghost i0 = *old(input);
    let ghost m0 = origin_map(old(input).bip32_derivation@);
    let n = template.len();
    let mut idx: usize = 0;
    proof {
        assert(template@.take(0) =~= Seq::<Placeholder>::empty());
    }
    while idx < n
        invariant
            idx <= n,
            n == template@.len(),
            origin_keys_unique(input.bip32_derivation@),
            origin_map(input.bip32_derivation@) == bip32_after(m0, template@.take(idx as int)),
            input.tap_merkle_root == i0.tap_merkle_root,
            input.tap_internal_key == i0.tap_internal_key,
            input.tap_key_origins == i0.tap_key_origins,
            input.tap_scripts == i0.tap_scripts,
            input.witness_script == i0.witness_script,
            input.redeem_script == i0.redeem_script,
        decreases n - idx,
    {
        proof {
            assert(template@.take(idx as int + 1).drop_last() =~= template@.take(idx as int));
            assert(template@.take(idx as int + 1).last() == template@[idx as int]);
        }
        match &template[idx] {
            Placeholder::EcdsaSigPk { key } => {
                if key.derivation_paths.len() > 0 {
                    let path = clone_path(&key.derivation_paths[key.derivation_paths.len() - 1]);
                    proof {
                        assert(key.derivation_paths@[key.derivation_paths@.len() - 1]
                            == key.derivation_paths@.last());
                    }
                    upsert_origin(
                        &mut input.bip32_derivation,
                        &key.full,
                        KeyOrigin { fingerprint: key.fingerprint, path },
                    );
                }
            },
            _ => {},
        }
        idx += 1;
    }
    proof {
        assert(template@.take(n as int) =~= template@);
    }
    match descriptor {
        Descriptor::Bare | Descriptor::Pkh | Descriptor::Wpkh => {},
        Descriptor::Sh { inner } => match inner {
            ShInner::Wsh { script } => {
                input.witness_script = Some(clone_bytes(script));
                input.redeem_script = Some(to_p2wsh(script));
            },
            ShInner::Wpkh { script } => {
                input.redeem_script = Some(clone_bytes(script));
            },
            ShInner::SortedMulti { script } => {
                input.redeem_script = Some(clone_bytes(script));
            },
            ShInner::Ms { script } => {
                input.redeem_script = Some(clone_bytes(script));
            },
        },
        Descriptor::Wsh { script } => {
            input.witness_script = Some(clone_bytes(script));
        },
        Descriptor::Tr { .. } => {
            proof {
                assert(false);
            }
        },
    }
    proof {
        assert(input@ =~~= legacy_updated(*descriptor, template@, old(input)@));
    }
}

} // verus!
