//! The mathematical meaning of populating an input from a plan.
//!
//! [`plan_updated`] says, field by field, what the populator leaves in the
//! input record; the executable code's contract is exactly that function.

use vstd::prelude::*;
use crate::types::{
    Descriptor, InputModel, KeyOriginModel, Placeholder, Plan, SchnorrSpend, ShInner,
};
use crate::script::p2wsh_of;

verus! {

/// The leaf version written into `tap_scripts` entries (the version for
/// ordinary Taproot leaf scripts).
pub const TAPSCRIPT_LEAF_VERSION: u8 = 0xc0;

/// The spend classification a Taproot template settles on.
pub ghost enum SpendModel {
    KeySpend { internal_key: Seq<u8> },
    ScriptSpend { leaf_hash: Seq<u8> },
}

/// The aggregate a Taproot template folds into: at most one tap script,
/// one control block, one spend classification, and the origin of every
/// key that signs.
pub ghost struct TapAggregate {
    pub tap_script: Option<Seq<u8>>,
    pub control_block: Option<Seq<u8>>,
    pub spend: Option<SpendModel>,
    pub key_origins: Map<Seq<u8>, KeyOriginModel>,
}

/// The aggregate before any placeholder has been folded in.
pub open spec fn empty_aggregate() -> TapAggregate {
    TapAggregate {
        tap_script: None,
        control_block: None,
        spend: None,
        key_origins: Map::empty(),
    }
}

/// Folds one placeholder into the aggregate:
/// * a tap script or control block is recorded, a later one overwriting
///   an earlier one;
/// * the first Schnorr signature fixes the spend classification, and every
///   Schnorr signature records its key's origin;
/// * a key-and-leaf-hash Schnorr signature forces the classification to a
///   script spend unconditionally, and records no origin;
/// * every other placeholder is ignored.
pub open spec fn tap_step(a: TapAggregate, p: Placeholder) -> TapAggregate {
    match p {
        Placeholder::TapScript { script } => TapAggregate { tap_script: Some(script@), ..a },
        Placeholder::TapControlBlock { control_block } => TapAggregate {
            control_block: Some(control_block@),
            ..a
        },
        Placeholder::SchnorrSigPk { key, spend } => {
            let classified = if a.spend is None {
                match spend {
                    SchnorrSpend::KeySpend => TapAggregate {
                        spend: Some(SpendModel::KeySpend { internal_key: key.x_only@ }),
                        ..a
                    },
                    SchnorrSpend::ScriptSpend { leaf_hash } => TapAggregate {
                        spend: Some(SpendModel::ScriptSpend { leaf_hash: leaf_hash@ }),
                        ..a
                    },
                }
            } else {
                a
            };
            if key.derivation_paths@.len() > 0 {
                TapAggregate {
                    key_origins: classified.key_origins.insert(key.x_only@, key.last_origin()),
                    ..classified
                }
            } else {
                classified
            }
        },
        Placeholder::SchnorrSigPkHash { key_hash: _, leaf_hash } => TapAggregate {
            spend: Some(SpendModel::ScriptSpend { leaf_hash: leaf_hash@ }),
            ..a
        },
        _ => a,
    }
}

/// A placeholder must not contradict the classification already folded in:
/// a key-spend signature after a script-spend classification, or a
/// script-spend signature after a key-spend classification, is the fatal
/// internal invariant violation of plan construction.
pub open spec fn tap_step_ok(a: TapAggregate, p: Placeholder) -> bool {
    match p {
        Placeholder::SchnorrSigPk { key: _, spend } => match (a.spend, spend) {
            (Some(SpendModel::KeySpend { .. }), SchnorrSpend::ScriptSpend { .. }) => false,
            (Some(SpendModel::ScriptSpend { .. }), SchnorrSpend::KeySpend) => false,
            _ => true,
        },
        _ => true,
    }
}

/// The aggregate of a whole template.
pub open spec fn tap_aggregate(t: Seq<Placeholder>) -> TapAggregate
    decreases t.len(),
{
    if t.len() == 0 {
        empty_aggregate()
    } else {
        tap_step(tap_aggregate(t.drop_last()), t.last())
    }
}

/// No step of the fold observes conflicting spend classifications.
pub open spec fn tap_consistent(t: Seq<Placeholder>) -> bool
    decreases t.len(),
{
    if t.len() == 0 {
        true
    } else {
        tap_consistent(t.drop_last()) && tap_step_ok(tap_aggregate(t.drop_last()), t.last())
    }
}

/// A consistent template has consistent prefixes.
pub proof fn lemma_tap_consistent_prefix(t: Seq<Placeholder>, i: int)
    requires
        tap_consistent(t),
        0 <= i <= t.len(),
    ensures
        tap_consistent(t.take(i)),
    decreases t.len(),
{
    if i < t.len() {
        assert(t.drop_last().take(i) =~= t.take(i));
        lemma_tap_consistent_prefix(t.drop_last(), i);
    } else {
        assert(t.take(i) =~= t);
    }
}

/// Whether the whole plan is free of the fatal invariant violation: a
/// non-Taproot plan always is; a Taproot plan is when its template never
/// mixes the two spend classifications.
pub open spec fn plan_consistent(p: Plan) -> bool {
    p.descriptor is Tr ==> tap_consistent(p.template@)
}

/// Which of the two spend paths a classification has settled on,
/// forgetting the key or leaf hash: `Some(true)` for a key spend,
/// `Some(false)` for a script spend.
pub open spec fn spend_shape(s: Option<SpendModel>) -> Option<bool> {
    match s {
        None => None,
        Some(SpendModel::KeySpend { .. }) => Some(true),
        Some(SpendModel::ScriptSpend { .. }) => Some(false),
    }
}

/// Appends `lh` to the leaf-hash sequence unless it is already present
/// (set semantics).
pub open spec fn push_if_missing(hs: Seq<Seq<u8>>, lh: Seq<u8>) -> Seq<Seq<u8>> {
    if hs.contains(lh) {
        hs
    } else {
        hs.push(lh)
    }
}

/// The leaf hashes of an existing entry after one merge.
pub open spec fn merge_hashes(hs: Seq<Seq<u8>>, lh: Option<Seq<u8>>) -> Seq<Seq<u8>> {
    match lh {
        Some(h) => push_if_missing(hs, h),
        None => hs,
    }
}

/// The leaf hashes a freshly inserted entry starts with.
pub open spec fn initial_hashes(lh: Option<Seq<u8>>) -> Seq<Seq<u8>> {
    match lh {
        Some(h) => seq![h],
        None => Seq::empty(),
    }
}

/// Upserts every key of `origins` into the Taproot key-origin map `m`:
/// an absent key is inserted with its origin and the known leaf hash (if
/// any); a present key gains the leaf hash with set semantics and keeps
/// its stored origin untouched.
pub open spec fn merged_origins(
    m: Map<Seq<u8>, (Seq<Seq<u8>>, KeyOriginModel)>,
    origins: Map<Seq<u8>, KeyOriginModel>,
    lh: Option<Seq<u8>>,
) -> Map<Seq<u8>, (Seq<Seq<u8>>, KeyOriginModel)> {
    Map::new(
        |k: Seq<u8>| m.dom().contains(k) || origins.dom().contains(k),
        |k: Seq<u8>|
            if origins.dom().contains(k) {
                if m.dom().contains(k) {
                    (merge_hashes(m[k].0, lh), m[k].1)
                } else {
                    (initial_hashes(lh), origins[k])
                }
            } else {
                m[k]
            },
    )
}

/// The leaf hash a script-spend classification remembers for the merge.
pub open spec fn spend_leaf_hash(s: Option<SpendModel>) -> Option<Seq<u8>> {
    match s {
        Some(SpendModel::ScriptSpend { leaf_hash }) => Some(leaf_hash),
        _ => None,
    }
}

/// What the Taproot branch leaves in the input: the merkle root is copied
/// from the descriptor; a key-spend classification sets the internal key;
/// the key origins are merged; and `tap_scripts` gains the one entry
/// pairing the control block with the tap script, only when both were
/// observed. The legacy fields are untouched.
pub open spec fn tap_updated(
    merkle_root: Option<Seq<u8>>,
    t: Seq<Placeholder>,
    i: InputModel,
) -> InputModel {
    let a = tap_aggregate(t);
    InputModel {
        tap_merkle_root: merkle_root,
        tap_internal_key: match a.spend {
            Some(SpendModel::KeySpend { internal_key }) => Some(internal_key),
            _ => i.tap_internal_key,
        },
        tap_key_origins: merged_origins(i.tap_key_origins, a.key_origins, spend_leaf_hash(a.spend)),
        tap_scripts: match (a.control_block, a.tap_script) {
            (Some(cb), Some(s)) => i.tap_scripts.insert(cb, (s, TAPSCRIPT_LEAF_VERSION)),
            _ => i.tap_scripts,
        },
        bip32_derivation: i.bip32_derivation,
        witness_script: i.witness_script,
        redeem_script: i.redeem_script,
    }
}

/// Folds one placeholder into the BIP-32 origin map: an ECDSA signature
/// by a key with at least one derivation path records the key's origin
/// under its full public-key encoding; everything else is ignored.
pub open spec fn bip32_step(
    m: Map<Seq<u8>, KeyOriginModel>,
    p: Placeholder,
) -> Map<Seq<u8>, KeyOriginModel> {
    match p {
        Placeholder::EcdsaSigPk { key } => {
            if key.derivation_paths@.len() > 0 {
                m.insert(key.full@, key.last_origin())
            } else {
                m
            }
        },
        _ => m,
    }
}

/// The BIP-32 origin map after the whole template.
pub open spec fn bip32_after(
    m: Map<Seq<u8>, KeyOriginModel>,
    t: Seq<Placeholder>,
) -> Map<Seq<u8>, KeyOriginModel>
    decreases t.len(),
{
    if t.len() == 0 {
        m
    } else {
        bip32_step(bip32_after(m, t.drop_last()), t.last())
    }
}

/// What the legacy/segwit branch leaves in the input: the BIP-32 origins
/// of the template's ECDSA keys, and the witness/redeem scripts that are a
/// pure function of the descriptor variant. The Taproot fields are
/// untouched. (A Taproot descriptor never reaches this branch; for it this
/// function changes only the BIP-32 map.)
pub open spec fn legacy_updated(d: Descriptor, t: Seq<Placeholder>, i: InputModel) -> InputModel {
    let i1 = InputModel { bip32_derivation: bip32_after(i.bip32_derivation, t), ..i };
    match d {
        Descriptor::Bare | Descriptor::Pkh | Descriptor::Wpkh => i1,
        Descriptor::Sh { inner } => match inner {
            ShInner::Wsh { script } => InputModel {
                witness_script: Some(script@),
                redeem_script: Some(p2wsh_of(script@)),
                ..i1
            },
            ShInner::Wpkh { script } => InputModel { redeem_script: Some(script@), ..i1 },
            ShInner::SortedMulti { script } => InputModel { redeem_script: Some(script@), ..i1 },
            ShInner::Ms { script } => InputModel { redeem_script: Some(script@), ..i1 },
        },
        Descriptor::Wsh { script } => InputModel { witness_script: Some(script@), ..i1 },
        Descriptor::Tr { .. } => i1,
    }
}

/// What populating the input from the plan leaves behind: the Taproot
/// branch for a Taproot descriptor, the legacy/segwit branch otherwise.
pub open spec fn plan_updated(p: Plan, i: InputModel) -> InputModel {
    match p.descriptor {
        Descriptor::Tr { merkle_root } => tap_updated(crate::types::opt_bytes(merkle_root), p.template@, i),
        _ => legacy_updated(p.descriptor, p.template@, i),
    }
}

} // verus!
