//! The Taproot branch: folding a template into its aggregate, and merging
//! the aggregate's key origins into the input's Taproot key-origin map.

use vstd::prelude::*;
use crate::types::{
    bytes_seq, hashes_distinct, opt_bytes, origin_keys_unique, origin_map, tap_origin_keys_unique,
    tap_origin_map, KeyOrigin, KeyedOrigin, Placeholder, SchnorrSpend, TapKeyOrigin,
};
use crate::model::{initial_hashes, merged_origins, tap_aggregate, SpendModel};
use crate::entries::{
    clone_bytes, clone_path, contains_bytes, find_tap_origin, lemma_tap_origin_map_absent,
    lemma_tap_origin_map_present, lemma_tap_origin_map_update, upsert_origin,
};

verus! {

/// Executable form of the spend classification.
pub enum SpendType {
    /// Spend with this internal key.
    KeySpend { internal_key: Vec<u8> },
    /// Spend by revealing the leaf with this hash.
    ScriptSpend { leaf_hash: Vec<u8> },
}

/// View of an optional spend classification.
pub open spec fn spend_view(s: Option<SpendType>) -> Option<SpendModel> {
    match s {
        None => None,
        Some(SpendType::KeySpend { internal_key }) => Some(
            SpendModel::KeySpend { internal_key: internal_key@ },
        ),
        Some(SpendType::ScriptSpend { leaf_hash }) => Some(
            SpendModel::ScriptSpend { leaf_hash: leaf_hash@ },
        ),
    }
}

/// The fold's executable aggregate.
pub struct TapData {
    pub tap_script: Option<Vec<u8>>,
    pub control_block: Option<Vec<u8>>,
    pub spend: Option<SpendType>,
    pub key_origins: Vec<KeyedOrigin>,
}

/// Folds the template into its aggregate, exactly as [`tap_aggregate`]
/// describes.
pub(crate) fn accumulate(template: &Vec<Placeholder>) -> (r: TapData)
    ensures
        opt_bytes(r.tap_script) == tap_aggregate(template@).tap_script,
        opt_bytes(r.control_block) == tap_aggregate(template@).control_block,
        spend_view(r.spend) == tap_aggregate(template@).spend,
        origin_map(r.key_origins@) == tap_aggregate(template@).key_origins,
        origin_keys_unique(r.key_origins@),
{
    let mut tap_script: Option<Vec<u8>> = None;
    let mut control_block: Option<Vec<u8>> = None;
    let mut spend: Option<SpendType> = None;
    let mut key_origins: Vec<KeyedOrigin> = Vec::new();
    let n = template.len();
    let mut idx: usize = 0;
    proof {
        assert(template@.take(0) =~= Seq::<Placeholder>::empty());
        assert(origin_map(key_origins@) =~= tap_aggregate(template@.take(0)).key_origins);
    }
    while idx < n
        invariant
            idx <= n,
            n == template@.len(),
            opt_bytes(tap_script) == tap_aggregate(template@.take(idx as int)).tap_script,
            opt_bytes(control_block) == tap_aggregate(template@.take(idx as int)).control_block,
            spend_view(spend) == tap_aggregate(template@.take(idx as int)).spend,
            origin_map(key_origins@) == tap_aggregate(template@.take(idx as int)).key_origins,
            origin_keys_unique(key_origins@),
        decreases n - idx,
    {
        proof {
            assert(template@.take(idx as int + 1).drop_last() =~= template@.take(idx as int));
            assert(template@.take(idx as int + 1).last() == template@[idx as int]);
        }
        match &template[idx] {
            Placeholder::TapScript { script } => {
                tap_script = Some(clone_bytes(script));
            },
            Placeholder::TapControlBlock { control_block: cb } => {
                control_block = Some(clone_bytes(cb));
            },
            Placeholder::SchnorrSigPk { key, spend: sig_spend } => {
                if spend.is_none() {
                    match sig_spend {
                        SchnorrSpend::KeySpend => {
                            spend = Some(SpendType::KeySpend { internal_key: clone_bytes(&key.x_only) });
                        },
                        SchnorrSpend::ScriptSpend { leaf_hash } => {
                            spend = Some(SpendType::ScriptSpend { leaf_hash: clone_bytes(leaf_hash) });
                        },
                    }
                }
                if key.derivation_paths.len() > 0 {
                    let path = clone_path(&key.derivation_paths[key.derivation_paths.len() - 1]);
                    let origin = KeyOrigin { fingerprint: key.fingerprint, path };
                    proof {
                        assert(key.derivation_paths@[key.derivation_paths@.len() - 1]
                            == key.derivation_paths@.last());
                    }
                    upsert_origin(&mut key_origins, &key.x_only, origin);
                }
            },
            Placeholder::SchnorrSigPkHash { key_hash: _, leaf_hash } => {
                spend = Some(SpendType::ScriptSpend { leaf_hash: clone_bytes(leaf_hash) });
            },
            _ => {},
        }
        idx += 1;
        proof {
            assert(origin_map(key_origins@) =~~= tap_aggregate(
                template@.take(idx as int),
            ).key_origins);
        }
    }
    proof {
        assert(template@.take(n as int) =~= template@);
    }
    TapData { tap_script, control_block, spend, key_origins }
}

/// Upserts every accumulated key origin into the input's Taproot
/// key-origin map, exactly as [`merged_origins`] describes: a fresh key is
/// inserted with the known leaf hash (if any) and its origin; a present
/// key gains the leaf hash with set semantics and keeps its stored origin.
pub(crate) fn merge_key_origins(
    entries: &mut Vec<TapKeyOrigin>,
    origins: &Vec<KeyedOrigin>,
    leaf_hash: &Option<Vec<u8>>,
)
    requires
        tap_origin_keys_unique(old(entries)@),
        forall|i: int|
            0 <= i < old(entries)@.len() ==> hashes_distinct(
                bytes_seq((#[trigger] old(entries)@[i]).leaf_hashes@),
            ),
        origin_keys_unique(origins@),
    ensures
        tap_origin_keys_unique(final(entries)@),
        forall|i: int|
            0 <= i < final(entries)@.len() ==> hashes_distinct(
                bytes_seq((#[trigger] final(entries)@[i]).leaf_hashes@),
            ),
        tap_origin_map(final(entries)@) == merged_origins(
            tap_origin_map(old(entries)@),
            origin_map(origins@),
            opt_bytes(*leaf_hash),
        ),
{
    let ghost m0 = tap_origin_map(old(entries)@);
    let ghost lh = opt_bytes(*leaf_hash);
    let n = origins.len();
    let mut j: usize = 0;
    proof {
        assert(origins@.take(0) =~= Seq::<KeyedOrigin>::empty());
        assert(tap_origin_map(entries@) =~~= merged_origins(m0, origin_map(origins@.take(0)), lh));
    }
    while j < n
        invariant
            j <= n,
            n == origins@.len(),
            origin_keys_unique(origins@),
            lh == opt_bytes(*leaf_hash),
            tap_origin_keys_unique(entries@),
            forall|i: int|
                0 <= i < entries@.len() ==> hashes_distinct(
                    bytes_seq((#[trigger] entries@[i]).leaf_hashes@),
                ),
            tap_origin_map(entries@) == merged_origins(m0, origin_map(origins@.take(j as int)), lh),
        decreases n - j,
    {
        let entry = &origins[j];
        proof {
            assert(origins@.take(j as int + 1).drop_last() =~= origins@.take(j as int));
            assert(origins@.take(j as int + 1).last() == origins@[j as int]);
            assert forall|i: int| 0 <= i < origins@.take(j as int).len() implies (#[trigger]
            origins@.take(j as int)[i]).key@ != entry.key@ by {
                assert(origins@[i].key@ != origins@[j as int].key@);
            }
            crate::entries::lemma_origin_map_absent(origins@.take(j as int), entry.key@);
        }
        match find_tap_origin(entries, &entry.key) {
            Some(i) => {
                let ghost s = entries@;
                proof {
                    lemma_tap_origin_map_present(s, i as int);
                }
                match leaf_hash {
                    Some(h) => {
                        if !contains_bytes(&entries[i].leaf_hashes, h) {
                            let mut e = entries.remove(i);
                            e.leaf_hashes.push(clone_bytes(h));
                            let ghost e_g = e;
                            entries.insert(i, e);
                            proof {
                                assert(entries@ =~= s.update(i as int, e_g));
                                lemma_tap_origin_map_update(s, i as int, e_g);
                                assert(bytes_seq(e_g.leaf_hashes@) =~= bytes_seq(
                                    s[i as int].leaf_hashes@,
                                ).push(h@));
                                assert(hashes_distinct(bytes_seq(e_g.leaf_hashes@)));
                                assert forall|a: int, b: int|
                                    0 <= a < b < entries@.len() implies entries@[a].key@
                                    != entries@[b].key@ by {
                                    assert(s[a].key@ != s[b].key@);
                                }
                                assert(tap_origin_map(entries@) =~~= merged_origins(
                                    m0,
                                    origin_map(origins@.take(j as int + 1)),
                                    lh,
                                ));
                            }
                        } else {
                            proof {
                                assert(tap_origin_map(entries@) =~~= merged_origins(
                                    m0,
                                    origin_map(origins@.take(j as int + 1)),
                                    lh,
                                ));
                            }
                        }
                    },
                    None => {
                        proof {
                            assert(tap_origin_map(entries@) =~~= merged_origins(
                                m0,
                                origin_map(origins@.take(j as int + 1)),
                                lh,
                            ));
                        }
                    },
                }
            },
            None => {
                let ghost s = entries@;
                proof {
                    lemma_tap_origin_map_absent(s, entry.key@);
                }
                let mut hs: Vec<Vec<u8>> = Vec::new();
                match leaf_hash {
                    Some(h) => {
                        hs.push(clone_bytes(h));
                    },
                    None => {},
                }
                let e = TapKeyOrigin {
                    key: clone_bytes(&entry.key),
                    leaf_hashes: hs,
                    origin: KeyOrigin {
                        fingerprint: entry.origin.fingerprint,
                        path: clone_path(&entry.origin.path),
                    },
                };
                let ghost e_g = e;
                entries.push(e);
                proof {
                    assert(entries@.drop_last() =~= s);
                    assert(bytes_seq(e_g.leaf_hashes@) =~= initial_hashes(lh));
                    assert forall|a: int, b: int| 0 <= a < b < entries@.len() implies entries@[a].key@
                        != entries@[b].key@ by {
                        if b < entries@.len() - 1 {
                            assert(s[a].key@ != s[b].key@);
                        } else {
                            assert(s[a].key@ != entry.key@);
                        }
                    }
                    assert(tap_origin_map(entries@) =~~= merged_origins(
                        m0,
                        origin_map(origins@.take(j as int + 1)),
                        lh,
                    ));
                }
            },
        }
        j += 1;
    }
    proof {
        assert(origins@.take(n as int) =~= origins@);
    }
}

} // verus!
