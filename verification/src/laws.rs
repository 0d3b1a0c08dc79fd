//! Laws of the populator, stated over the model and proved once and for
//! all: mutual exclusivity of the Taproot spend paths, idempotence of the
//! key-origin merge, fidelity of the script table, and the separation of
//! the Taproot and legacy/segwit field groups.

use vstd::prelude::*;
use crate::types::{Descriptor, InputModel, KeyOriginModel, Placeholder, Plan, ShInner};
use crate::model::{
    legacy_updated, merge_hashes, merged_origins, plan_updated, push_if_missing, tap_aggregate,
    SpendModel,
};
use crate::script::p2wsh_of;

verus! {

/// A Taproot plan as the planner shapes it: either a key-spend plan,
/// whose template carries no tap-script/control-block pair, or a
/// script-spend plan, which carries both and no key-spend classification.
pub open spec fn tap_plan_complete(t: Seq<Placeholder>) -> bool {
    let a = tap_aggregate(t);
    ||| ((a.spend matches Some(SpendModel::KeySpend { .. })) && !(a.tap_script is Some
        && a.control_block is Some))
    ||| ((a.tap_script is Some && a.control_block is Some) && !(a.spend matches Some(
        SpendModel::KeySpend { .. },
    )))
}

/// Mutual exclusivity: populating a fresh input from a well-shaped
/// Taproot plan sets exactly one of the internal key or the
/// control-block-to-script map — never both, and the map side needs the
/// script/control-block pair, not the classification alone.
pub proof fn lemma_tap_mutual_exclusion(p: Plan, i: InputModel)
    requires
        p.descriptor is Tr,
        tap_plan_complete(p.template@),
        i.tap_internal_key is None,
        i.tap_scripts == Map::<Seq<u8>, (Seq<u8>, u8)>::empty(),
    ensures
        ({
            let r = plan_updated(p, i);
            (r.tap_internal_key is Some) <==> !(r.tap_scripts.len() >= 1)
        }),
{
    let a = tap_aggregate(p.template@);
    let r = plan_updated(p, i);
    assert(Map::<Seq<u8>, (Seq<u8>, u8)>::empty().dom() =~= Set::<Seq<u8>>::empty());
    if a.tap_script is Some && a.control_block is Some {
        let cb = a.control_block->0;
        assert(r.tap_scripts.dom() =~= Set::<Seq<u8>>::empty().insert(cb));
        assert(r.tap_scripts.dom().len() == 1);
    } else {
        assert(r.tap_scripts.dom().len() == 0);
    }
}

/// Idempotent merge: merging the same key origins with the same known
/// leaf hash a second time changes nothing — in particular a leaf hash
/// is never recorded twice for a key.
pub proof fn lemma_merge_idempotent(
    m: Map<Seq<u8>, (Seq<Seq<u8>>, KeyOriginModel)>,
    origins: Map<Seq<u8>, KeyOriginModel>,
    lh: Option<Seq<u8>>,
)
    ensures
        merged_origins(merged_origins(m, origins, lh), origins, lh) == merged_origins(
            m,
            origins,
            lh,
        ),
{
    let m1 = merged_origins(m, origins, lh);
    let m2 = merged_origins(m1, origins, lh);
    assert forall|k: Seq<u8>| m1.dom().contains(k) implies m2.dom().contains(k) && m2[k]
        == m1[k] by {
        if origins.dom().contains(k) {
            match lh {
                Some(h) => {
                    let hs1 = m1[k].0;
                    if m.dom().contains(k) {
                        if m[k].0.contains(h) {
                            assert(hs1.contains(h));
                        } else {
                            assert(hs1 == m[k].0.push(h));
                            assert(hs1[hs1.len() - 1] == h);
                            assert(hs1.contains(h));
                        }
                    } else {
                        assert(hs1 == seq![h]);
                        assert(hs1[0] == h);
                        assert(hs1.contains(h));
                    }
                    assert(merge_hashes(hs1, lh) == hs1);
                },
                None => {},
            }
        }
    }
    assert(m2 =~~= m1);
}

/// Descriptor-table fidelity: for a non-Taproot descriptor the witness
/// and redeem scripts of a freshly populated input are a pure function of
/// the descriptor variant, whatever the template holds.
pub proof fn lemma_script_table(p: Plan, i: InputModel)
    requires
        !(p.descriptor is Tr),
        i.witness_script is None,
        i.redeem_script is None,
    ensures
        ({
            let r = plan_updated(p, i);
            match p.descriptor {
                Descriptor::Bare | Descriptor::Pkh | Descriptor::Wpkh => r.witness_script is None
                    && r.redeem_script is None,
                Descriptor::Sh { inner } => match inner {
                    ShInner::Wsh { script } => r.witness_script == Some(script@)
                        && r.redeem_script == Some(p2wsh_of(script@)),
                    ShInner::Wpkh { script } => r.witness_script is None && r.redeem_script
                        == Some(script@),
                    ShInner::SortedMulti { script } => r.witness_script is None && r.redeem_script
                        == Some(script@),
                    ShInner::Ms { script } => r.witness_script is None && r.redeem_script == Some(
                        script@,
                    ),
                },
                Descriptor::Wsh { script } => r.witness_script == Some(script@)
                    && r.redeem_script is None,
                Descriptor::Tr { .. } => true,
            }
        }),
{
}

/// No cross-contamination: a non-Taproot plan leaves every Taproot field
/// as it was, and a Taproot plan leaves the BIP-32 origins and the
/// witness/redeem scripts as they were.
pub proof fn lemma_no_cross_contamination(p: Plan, i: InputModel)
    ensures
        !(p.descriptor is Tr) ==> {
            let r = plan_updated(p, i);
            &&& r.tap_merkle_root == i.tap_merkle_root
            &&& r.tap_internal_key == i.tap_internal_key
            &&& r.tap_key_origins == i.tap_key_origins
            &&& r.tap_scripts == i.tap_scripts
        },
        p.descriptor is Tr ==> {
            let r = plan_updated(p, i);
            &&& r.bip32_derivation == i.bip32_derivation
            &&& r.witness_script == i.witness_script
            &&& r.redeem_script == i.redeem_script
        },
{
    match p.descriptor {
        Descriptor::Sh { inner } => match inner {
            ShInner::Wsh { .. } => {},
            ShInner::Wpkh { .. } => {},
            ShInner::SortedMulti { .. } => {},
            ShInner::Ms { .. } => {},
        },
        _ => {},
    }
    let r = legacy_updated(p.descriptor, p.template@, i);
}

} // verus!
