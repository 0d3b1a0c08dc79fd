//! End-to-end tests of the input populator on concrete plans.

use psbt_plan::{
    plan_is_consistent, update_psbt_input, Descriptor, Input, Placeholder, Plan, PlanKey,
    SchnorrSpend, ShInner,
};

fn key(x_only: Vec<u8>, full: Vec<u8>, fingerprint: u32, paths: Vec<Vec<u32>>) -> PlanKey {
    PlanKey {
        x_only,
        full,
        fingerprint,
        derivation_paths: paths,
    }
}

fn assert_tap_fields_unset(input: &Input) {
    assert!(input.tap_merkle_root.is_none());
    assert!(input.tap_internal_key.is_none());
    assert_eq!(input.tap_key_origins.len(), 0);
    assert_eq!(input.tap_scripts.len(), 0);
}

fn assert_legacy_fields_unset(input: &Input) {
    assert_eq!(input.bip32_derivation.len(), 0);
    assert!(input.witness_script.is_none());
    assert!(input.redeem_script.is_none());
}

#[test]
fn wpkh_records_bip32_origin() {
    let k = key(vec![1; 32], vec![2; 33], 0xF00D_F00D, vec![vec![44, 0, 7]]);
    let plan = Plan {
        descriptor: Descriptor::Wpkh,
        template: vec![Placeholder::EcdsaSigPk { key: k }],
    };
    let mut input = Input::new();
    assert!(plan_is_consistent(&plan));
    update_psbt_input(&plan, &mut input);
    assert_eq!(input.bip32_derivation.len(), 1);
    assert_eq!(input.bip32_derivation[0].key, vec![2; 33]);
    assert_eq!(input.bip32_derivation[0].origin.fingerprint, 0xF00D_F00D);
    assert_eq!(input.bip32_derivation[0].origin.path, vec![44, 0, 7]);
    assert!(input.witness_script.is_none());
    assert!(input.redeem_script.is_none());
    assert_tap_fields_unset(&input);
}

#[test]
fn wsh_sets_witness_script_only() {
    let script = vec![0x51, 0x21, 0xAB];
    let k = key(vec![1; 32], vec![2; 33], 1, vec![vec![0]]);
    let plan = Plan {
        descriptor: Descriptor::Wsh {
            script: script.clone(),
        },
        template: vec![Placeholder::EcdsaSigPk { key: k }],
    };
    let mut input = Input::new();
    update_psbt_input(&plan, &mut input);
    assert_eq!(input.witness_script, Some(script));
    assert!(input.redeem_script.is_none());
    assert_tap_fields_unset(&input);
}

#[test]
fn sh_wsh_sets_witness_and_p2wsh_redeem() {
    let script = vec![0x52, 0x93, 0x54, 0x87];
    let k = key(vec![1; 32], vec![2; 33], 1, vec![vec![0]]);
    let plan = Plan {
        descriptor: Descriptor::Sh {
            inner: ShInner::Wsh {
                script: script.clone(),
            },
        },
        template: vec![Placeholder::EcdsaSigPk { key: k }],
    };
    let mut input = Input::new();
    update_psbt_input(&plan, &mut input);
    assert_eq!(input.witness_script, Some(script.clone()));
    let expected = bitcoin::ScriptBuf::from_bytes(script.clone())
        .to_p2wsh()
        .into_bytes();
    assert_eq!(input.redeem_script, Some(expected.clone()));
    // the redeem script really is the P2WSH form, not the script itself
    assert_ne!(expected, script);
    assert_eq!(expected.len(), 34);
    assert_tap_fields_unset(&input);
}

#[test]
fn sh_wpkh_sets_redeem_script_only() {
    let script = vec![0x00, 0x14, 0x11, 0x22];
    let plan = Plan {
        descriptor: Descriptor::Sh {
            inner: ShInner::Wpkh {
                script: script.clone(),
            },
        },
        template: vec![],
    };
    let mut input = Input::new();
    update_psbt_input(&plan, &mut input);
    assert!(input.witness_script.is_none());
    assert_eq!(input.redeem_script, Some(script));
    assert_tap_fields_unset(&input);
}

#[test]
fn sh_sorted_multi_sets_redeem_script_only() {
    let script = vec![0x52, 0xAE];
    let plan = Plan {
        descriptor: Descriptor::Sh {
            inner: ShInner::SortedMulti {
                script: script.clone(),
            },
        },
        template: vec![],
    };
    let mut input = Input::new();
    update_psbt_input(&plan, &mut input);
    assert!(input.witness_script.is_none());
    assert_eq!(input.redeem_script, Some(script));
    assert_tap_fields_unset(&input);
}

#[test]
fn sh_ms_sets_redeem_script_only() {
    let script = vec![0x63, 0x68];
    let plan = Plan {
        descriptor: Descriptor::Sh {
            inner: ShInner::Ms {
                script: script.clone(),
            },
        },
        template: vec![],
    };
    let mut input = Input::new();
    update_psbt_input(&plan, &mut input);
    assert!(input.witness_script.is_none());
    assert_eq!(input.redeem_script, Some(script));
    assert_tap_fields_unset(&input);
}

#[test]
fn bare_pkh_wpkh_set_no_scripts() {
    for descriptor in [Descriptor::Bare, Descriptor::Pkh, Descriptor::Wpkh] {
        let plan = Plan {
            descriptor,
            template: vec![],
        };
        let mut input = Input::new();
        update_psbt_input(&plan, &mut input);
        assert!(input.witness_script.is_none());
        assert!(input.redeem_script.is_none());
        assert_tap_fields_unset(&input);
        assert_eq!(input.bip32_derivation.len(), 0);
    }
}

#[test]
fn taproot_key_spend_sets_internal_key_only() {
    let k = key(vec![7; 32], vec![3; 33], 0xAA, vec![vec![86, 0, 1]]);
    let plan = Plan {
        descriptor: Descriptor::Tr {
            merkle_root: Some(vec![9; 32]),
        },
        template: vec![Placeholder::SchnorrSigPk {
            key: k,
            spend: SchnorrSpend::KeySpend,
        }],
    };
    let mut input = Input::new();
    assert!(plan_is_consistent(&plan));
    update_psbt_input(&plan, &mut input);
    assert_eq!(input.tap_merkle_root, Some(vec![9; 32]));
    assert_eq!(input.tap_internal_key, Some(vec![7; 32]));
    assert_eq!(input.tap_scripts.len(), 0);
    assert_eq!(input.tap_key_origins.len(), 1);
    assert_eq!(input.tap_key_origins[0].key, vec![7; 32]);
    assert_eq!(input.tap_key_origins[0].leaf_hashes.len(), 0);
    assert_eq!(input.tap_key_origins[0].origin.fingerprint, 0xAA);
    assert_eq!(input.tap_key_origins[0].origin.path, vec![86, 0, 1]);
    assert_legacy_fields_unset(&input);
}

#[test]
fn taproot_script_spend_pairs_control_block_and_script() {
    let script = vec![0x20, 0xCC, 0xAC];
    let control_block = vec![0xC1; 33];
    let leaf_hash = vec![0xEE; 32];
    let plan = Plan {
        descriptor: Descriptor::Tr { merkle_root: None },
        template: vec![
            Placeholder::TapScript {
                script: script.clone(),
            },
            Placeholder::TapControlBlock {
                control_block: control_block.clone(),
            },
            Placeholder::SchnorrSigPkHash {
                key_hash: vec![0x44; 20],
                leaf_hash: leaf_hash.clone(),
            },
        ],
    };
    let mut input = Input::new();
    assert!(plan_is_consistent(&plan));
    update_psbt_input(&plan, &mut input);
    assert!(input.tap_merkle_root.is_none());
    assert!(input.tap_internal_key.is_none());
    assert_eq!(input.tap_scripts.len(), 1);
    assert_eq!(input.tap_scripts[0].control_block, control_block);
    assert_eq!(input.tap_scripts[0].script, script);
    assert_eq!(input.tap_scripts[0].leaf_version, 0xC0);
    // the key-and-leaf-hash placeholder records no key origin
    assert_eq!(input.tap_key_origins.len(), 0);
    assert_legacy_fields_unset(&input);
}

#[test]
fn taproot_script_spend_signature_records_leaf_hash() {
    let script = vec![0x20, 0xCC, 0xAC];
    let control_block = vec![0xC1; 33];
    let leaf_hash = vec![0xEE; 32];
    let k = key(vec![8; 32], vec![3; 33], 0xBB, vec![vec![86, 1, 2]]);
    let plan = Plan {
        descriptor: Descriptor::Tr {
            merkle_root: Some(vec![4; 32]),
        },
        template: vec![
            Placeholder::TapScript {
                script: script.clone(),
            },
            Placeholder::TapControlBlock {
                control_block: control_block.clone(),
            },
            Placeholder::SchnorrSigPk {
                key: k,
                spend: SchnorrSpend::ScriptSpend {
                    leaf_hash: leaf_hash.clone(),
                },
            },
        ],
    };
    let mut input = Input::new();
    update_psbt_input(&plan, &mut input);
    assert!(input.tap_internal_key.is_none());
    assert_eq!(input.tap_scripts.len(), 1);
    assert_eq!(input.tap_key_origins.len(), 1);
    assert_eq!(input.tap_key_origins[0].key, vec![8; 32]);
    assert_eq!(input.tap_key_origins[0].leaf_hashes, vec![leaf_hash]);
    assert_eq!(input.tap_key_origins[0].origin.fingerprint, 0xBB);
    assert_legacy_fields_unset(&input);
}

#[test]
fn mixed_spend_placeholders_are_inconsistent() {
    let k1 = key(vec![1; 32], vec![2; 33], 1, vec![vec![0]]);
    let k2 = key(vec![5; 32], vec![6; 33], 2, vec![vec![1]]);
    let plan = Plan {
        descriptor: Descriptor::Tr { merkle_root: None },
        template: vec![
            Placeholder::SchnorrSigPk {
                key: k1,
                spend: SchnorrSpend::KeySpend,
            },
            Placeholder::SchnorrSigPk {
                key: k2,
                spend: SchnorrSpend::ScriptSpend {
                    leaf_hash: vec![0xEE; 32],
                },
            },
        ],
    };
    assert!(!plan_is_consistent(&plan));
}

#[test]
fn script_spend_then_key_spend_is_inconsistent() {
    let k1 = key(vec![1; 32], vec![2; 33], 1, vec![vec![0]]);
    let k2 = key(vec![5; 32], vec![6; 33], 2, vec![vec![1]]);
    let plan = Plan {
        descriptor: Descriptor::Tr { merkle_root: None },
        template: vec![
            Placeholder::SchnorrSigPk {
                key: k1,
                spend: SchnorrSpend::ScriptSpend {
                    leaf_hash: vec![0xEE; 32],
                },
            },
            Placeholder::SchnorrSigPk {
                key: k2,
                spend: SchnorrSpend::KeySpend,
            },
        ],
    };
    assert!(!plan_is_consistent(&plan));
}

#[test]
fn key_spend_after_leaf_hash_placeholder_is_inconsistent() {
    let k2 = key(vec![5; 32], vec![6; 33], 2, vec![vec![1]]);
    let plan = Plan {
        descriptor: Descriptor::Tr { merkle_root: None },
        template: vec![
            Placeholder::SchnorrSigPkHash {
                key_hash: vec![0x44; 20],
                leaf_hash: vec![0xEE; 32],
            },
            Placeholder::SchnorrSigPk {
                key: k2,
                spend: SchnorrSpend::KeySpend,
            },
        ],
    };
    assert!(!plan_is_consistent(&plan));
}

#[test]
fn leaf_hash_placeholder_after_key_spend_is_consistent() {
    let k1 = key(vec![1; 32], vec![2; 33], 1, vec![vec![0]]);
    let plan = Plan {
        descriptor: Descriptor::Tr { merkle_root: None },
        template: vec![
            Placeholder::SchnorrSigPk {
                key: k1,
                spend: SchnorrSpend::KeySpend,
            },
            Placeholder::SchnorrSigPkHash {
                key_hash: vec![0x55; 20],
                leaf_hash: vec![0xEE; 32],
            },
        ],
    };
    // the key-and-leaf-hash placeholder overwrites unconditionally
    assert!(plan_is_consistent(&plan));
    let mut input = Input::new();
    update_psbt_input(&plan, &mut input);
    // the classification ends as a script spend, so no internal key
    assert!(input.tap_internal_key.is_none());
    assert_eq!(input.tap_key_origins.len(), 1);
    assert_eq!(input.tap_key_origins[0].key, vec![1; 32]);
    assert_eq!(input.tap_key_origins[0].leaf_hashes, vec![vec![0xEE; 32]]);
}

#[test]
fn merging_same_leaf_hash_twice_keeps_one_copy() {
    let leaf_hash = vec![0xEE; 32];
    let k = key(vec![8; 32], vec![3; 33], 0xBB, vec![vec![86, 1, 2]]);
    let plan = Plan {
        descriptor: Descriptor::Tr { merkle_root: None },
        template: vec![Placeholder::SchnorrSigPk {
            key: k,
            spend: SchnorrSpend::ScriptSpend {
                leaf_hash: leaf_hash.clone(),
            },
        }],
    };
    let mut input = Input::new();
    update_psbt_input(&plan, &mut input);
    update_psbt_input(&plan, &mut input);
    assert_eq!(input.tap_key_origins.len(), 1);
    assert_eq!(input.tap_key_origins[0].leaf_hashes, vec![leaf_hash]);
}

#[test]
fn merging_new_leaf_hash_appends_and_keeps_origin() {
    let k1 = key(vec![8; 32], vec![3; 33], 0xBB, vec![vec![86, 1, 2]]);
    // same key bytes, different provenance: the stored origin must win
    let k2 = key(vec![8; 32], vec![3; 33], 0xCC, vec![vec![99]]);
    let plan = |k: PlanKey, lh: Vec<u8>| Plan {
        descriptor: Descriptor::Tr { merkle_root: None },
        template: vec![Placeholder::SchnorrSigPk {
            key: k,
            spend: SchnorrSpend::ScriptSpend { leaf_hash: lh },
        }],
    };
    let mut input = Input::new();
    update_psbt_input(&plan(k1, vec![0xEE; 32]), &mut input);
    update_psbt_input(&plan(k2, vec![0xDD; 32]), &mut input);
    assert_eq!(input.tap_key_origins.len(), 1);
    assert_eq!(
        input.tap_key_origins[0].leaf_hashes,
        vec![vec![0xEE; 32], vec![0xDD; 32]]
    );
    assert_eq!(input.tap_key_origins[0].origin.fingerprint, 0xBB);
    assert_eq!(input.tap_key_origins[0].origin.path, vec![86, 1, 2]);
}

#[test]
fn empty_taproot_template_sets_merkle_root_only() {
    let plan = Plan {
        descriptor: Descriptor::Tr {
            merkle_root: Some(vec![5; 32]),
        },
        template: vec![],
    };
    let mut input = Input::new();
    update_psbt_input(&plan, &mut input);
    assert_eq!(input.tap_merkle_root, Some(vec![5; 32]));
    assert!(input.tap_internal_key.is_none());
    assert_eq!(input.tap_key_origins.len(), 0);
    assert_eq!(input.tap_scripts.len(), 0);
    assert_legacy_fields_unset(&input);
}

#[test]
fn last_derivation_path_wins_per_key() {
    let k = key(vec![1; 32], vec![2; 33], 9, vec![vec![44, 0], vec![44, 1]]);
    let plan = Plan {
        descriptor: Descriptor::Pkh,
        template: vec![Placeholder::EcdsaSigPk { key: k }],
    };
    let mut input = Input::new();
    update_psbt_input(&plan, &mut input);
    assert_eq!(input.bip32_derivation.len(), 1);
    assert_eq!(input.bip32_derivation[0].origin.path, vec![44, 1]);
}

#[test]
fn key_without_derivation_paths_records_nothing() {
    let k = key(vec![1; 32], vec![2; 33], 9, vec![]);
    let plan = Plan {
        descriptor: Descriptor::Wpkh,
        template: vec![Placeholder::EcdsaSigPk { key: k }],
    };
    let mut input = Input::new();
    update_psbt_input(&plan, &mut input);
    assert_eq!(input.bip32_derivation.len(), 0);
}

#[test]
fn unrelated_placeholders_are_ignored() {
    let k = key(vec![1; 32], vec![2; 33], 9, vec![vec![0]]);
    let plan = Plan {
        descriptor: Descriptor::Tr { merkle_root: None },
        template: vec![
            Placeholder::Other,
            Placeholder::EcdsaSigPk { key: k },
            Placeholder::Other,
        ],
    };
    let mut input = Input::new();
    update_psbt_input(&plan, &mut input);
    // the Taproot branch ignores ECDSA and unrelated placeholders
    assert!(input.tap_internal_key.is_none());
    assert_eq!(input.tap_key_origins.len(), 0);
    assert_legacy_fields_unset(&input);
}

#[test]
fn later_tap_script_and_control_block_win() {
    let plan = Plan {
        descriptor: Descriptor::Tr { merkle_root: None },
        template: vec![
            Placeholder::TapScript {
                script: vec![0x01],
            },
            Placeholder::TapControlBlock {
                control_block: vec![0xC0; 33],
            },
            Placeholder::TapScript {
                script: vec![0x02],
            },
        ],
    };
    let mut input = Input::new();
    update_psbt_input(&plan, &mut input);
    assert_eq!(input.tap_scripts.len(), 1);
    assert_eq!(input.tap_scripts[0].control_block, vec![0xC0; 33]);
    assert_eq!(input.tap_scripts[0].script, vec![0x02]);
}

#[test]
fn tap_script_without_control_block_writes_no_entry() {
    let plan = Plan {
        descriptor: Descriptor::Tr { merkle_root: None },
        template: vec![Placeholder::TapScript {
            script: vec![0x01],
        }],
    };
    let mut input = Input::new();
    update_psbt_input(&plan, &mut input);
    assert_eq!(input.tap_scripts.len(), 0);
    assert!(input.tap_internal_key.is_none());
}

#[test]
fn non_taproot_update_preserves_existing_entries() {
    let k1 = key(vec![1; 32], vec![2; 33], 1, vec![vec![0]]);
    let k2 = key(vec![1; 32], vec![4; 33], 2, vec![vec![5]]);
    let mut input = Input::new();
    update_psbt_input(
        &Plan {
            descriptor: Descriptor::Bare,
            template: vec![Placeholder::EcdsaSigPk { key: k1 }],
        },
        &mut input,
    );
    update_psbt_input(
        &Plan {
            descriptor: Descriptor::Bare,
            template: vec![Placeholder::EcdsaSigPk { key: k2 }],
        },
        &mut input,
    );
    assert_eq!(input.bip32_derivation.len(), 2);
    assert_eq!(input.bip32_derivation[0].key, vec![2; 33]);
    assert_eq!(input.bip32_derivation[1].key, vec![4; 33]);
}

#[test]
fn first_key_spend_signature_fixes_internal_key() {
    let k1 = key(vec![1; 32], vec![2; 33], 1, vec![vec![0]]);
    let k2 = key(vec![5; 32], vec![6; 33], 2, vec![vec![1]]);
    let plan = Plan {
        descriptor: Descriptor::Tr { merkle_root: None },
        template: vec![
            Placeholder::SchnorrSigPk {
                key: k1,
                spend: SchnorrSpend::KeySpend,
            },
            Placeholder::SchnorrSigPk {
                key: k2,
                spend: SchnorrSpend::KeySpend,
            },
        ],
    };
    assert!(plan_is_consistent(&plan));
    let mut input = Input::new();
    update_psbt_input(&plan, &mut input);
    assert_eq!(input.tap_internal_key, Some(vec![1; 32]));
    // both keys' origins are recorded all the same
    assert_eq!(input.tap_key_origins.len(), 2);
}
