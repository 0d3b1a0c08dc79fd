//! The populator itself: routing a plan to the Taproot or legacy/segwit
//! branch and committing the result into the input record.

use vstd::prelude::*;
use crate::types::{opt_bytes, Descriptor, Input, Placeholder, Plan};
use crate::model::{
    lemma_tap_consistent_prefix, plan_consistent, plan_updated, spend_leaf_hash, spend_shape,
    tap_aggregate, tap_consistent, TAPSCRIPT_LEAF_VERSION,
};
use crate::entries::{clone_bytes, clone_opt_bytes, upsert_tap_script};
use crate::tap::{accumulate, merge_key_origins, SpendType};
use crate::legacy::apply_legacy;

verus! {

/// Update a PSBT input with the metadata required to complete this plan.
///
/// Only the items this plan requires are added: for a Taproot descriptor
/// the merkle root, the internal key (key spend) or the leaf hash,
/// control-block/script pair and key origins (script spend); for any other
/// descriptor the BIP-32 origins of the template's ECDSA keys and the
/// witness/redeem scripts the descriptor variant dictates. The whole
/// effect on the record is [`plan_updated`].
///
/// A Taproot template that mixes a key-spend and a script-spend signature
/// placeholder is an internal invariant violation of plan construction and
/// is excluded by `plan_consistent`; [`plan_is_consistent`] tests it.
pub fn update_psbt_input(plan: &Plan, input: &mut Input)
    requires
        old(input).wf(),
        plan_consistent(*plan),
    ensures
        final(input).wf(),
        final(input)@ == plan_updated(*plan, old(input)@),
{
    match &plan.descriptor {
        Descriptor::Tr { merkle_root } => {
            input.tap_merkle_root = clone_opt_bytes(merkle_root);
            let data = accumulate(&plan.template);
            let leaf_hash: Option<Vec<u8>> = match &data.spend {
                Some(SpendType::KeySpend { internal_key }) => {
                    input.tap_internal_key = Some(clone_bytes(internal_key));
                    None
                },
                Some(SpendType::ScriptSpend { leaf_hash }) => Some(clone_bytes(leaf_hash)),
                None => None,
            };
            proof {
                assert(opt_bytes(leaf_hash) == spend_leaf_hash(
                    tap_aggregate(plan.template@).spend,
                ));
            }
            merge_key_origins(&mut input.tap_key_origins, &data.key_origins, &leaf_hash);
            match (&data.control_block, &data.tap_script) {
                (Some(cb), Some(script)) => {
                    upsert_tap_script(&mut input.tap_scripts, cb, script, TAPSCRIPT_LEAF_VERSION);
                },
                _ => {},
            }
            proof {
                assert(input@ =~~= plan_updated(*plan, old(input)@));
            }
        },
        _ => {
            apply_legacy(&plan.descriptor, &plan.template, input);
        },
    }
}

/// Whether the plan is free of the fatal internal invariant violation: a
/// Taproot template that encodes both a key-spend and a script-spend
/// signature placeholder. Callers that cannot establish
/// [`plan_consistent`] up front test it with this function and treat a
/// `false` answer as the fatal plan-construction bug it signals.
pub fn plan_is_consistent(plan: &Plan) -> (r: bool)
    ensures
        r == plan_consistent(*plan),
{
    match &plan.descriptor {
        Descriptor::Tr { .. } => {
            let t = &plan.template;
            let n = t.len();
            // `Some(true)` once a key spend was seen, `Some(false)` once a
            // script spend was; mirrors the classification's shape.
            let mut seen: Option<bool> = None;
            let mut idx: usize = 0;
            proof {
                assert(t@.take(0) =~= Seq::<Placeholder>::empty());
            }
            while idx < n
                invariant
                    idx <= n,
                    n == t@.len(),
                    plan.descriptor is Tr,
                    t@ == plan.template@,
                    tap_consistent(t@.take(idx as int)),
                    seen == spend_shape(tap_aggregate(t@.take(idx as int)).spend),
                decreases n - idx,
            {
                proof {
                    assert(t@.take(idx as int + 1).drop_last() =~= t@.take(idx as int));
                    assert(t@.take(idx as int + 1).last() == t@[idx as int]);
                }
                match &t[idx] {
                    Placeholder::SchnorrSigPk { key: _, spend } => {
                        let is_key_spend = match spend {
                            crate::types::SchnorrSpend::KeySpend => true,
                            crate::types::SchnorrSpend::ScriptSpend { .. } => false,
                        };
                        match seen {
                            None => {
                                seen = Some(is_key_spend);
                            },
                            Some(k) => {
                                if k != is_key_spend {
                                    proof {
                                        assert(!tap_consistent(t@.take(idx as int + 1)));
                                        if tap_consistent(t@) {
                                            lemma_tap_consistent_prefix(t@, idx as int + 1);
                                        }
                                    }
                                    return false;
                                }
                            },
                        }
                    },
                    Placeholder::SchnorrSigPkHash { .. } => {
                        seen = Some(false);
                    },
                    _ => {},
                }
                idx += 1;
            }
            proof {
                assert(t@.take(n as int) =~= t@);
            }
            true
        },
        _ => true,
    }
}

} // verus!
