//! Data model: plans, descriptors, placeholders, and the PSBT input record
//! that the populator fills in.
//!
//! Every piece of key material is carried as plain bytes (or integers), so
//! that the contracts can speak about it directly: an x-only public key is
//! its 32-byte encoding, a full public key its 33-byte encoding, a script
//! its raw byte string, a master fingerprint a `u32`, and a derivation path
//! the sequence of its child numbers.

use vstd::prelude::*;

verus! {

/// A master-key fingerprint together with one BIP-32 derivation path,
/// identifying where a public key came from in an HD hierarchy.
#[derive(Clone, Debug)]
pub struct KeyOrigin {
    pub fingerprint: u32,
    pub path: Vec<u32>,
}

/// Mathematical model of a [`KeyOrigin`].
pub ghost struct KeyOriginModel {
    pub fingerprint: u32,
    pub path: Seq<u32>,
}

impl View for KeyOrigin {
    type V = KeyOriginModel;

    open spec fn view(&self) -> KeyOriginModel {
        KeyOriginModel { fingerprint: self.fingerprint, path: self.path@ }
    }
}

/// A public key as it appears in a plan's template: its two encodings
/// together with its provenance in the HD hierarchy.
#[derive(Clone, Debug)]
pub struct PlanKey {
    /// 32-byte x-only encoding (used by the Taproot branch).
    pub x_only: Vec<u8>,
    /// Full public-key encoding (used by the legacy/segwit branch).
    pub full: Vec<u8>,
    /// Master-key fingerprint shared by all of the key's paths.
    pub fingerprint: u32,
    /// Every full derivation path the key resolves to; may be empty.
    pub derivation_paths: Vec<Vec<u32>>,
}

impl PlanKey {
    /// The key origin recorded for this key: the fingerprint paired with the
    /// last of its derivation paths (later paths overwrite earlier ones in
    /// the origin maps, which are keyed by the public key).
    pub open spec fn last_origin(&self) -> KeyOriginModel
        recommends
            self.derivation_paths@.len() > 0,
    {
        KeyOriginModel { fingerprint: self.fingerprint, path: self.derivation_paths@.last()@ }
    }
}

/// How a Schnorr signature placeholder spends a Taproot output.
#[derive(Clone, Debug)]
pub enum SchnorrSpend {
    /// Spend with the output's internal key; no script is revealed.
    KeySpend,
    /// Spend by revealing the script leaf with this hash.
    ScriptSpend { leaf_hash: Vec<u8> },
}

/// One required data item in a plan's template.
#[derive(Clone, Debug)]
pub enum Placeholder {
    /// The Taproot leaf script that the plan reveals.
    TapScript { script: Vec<u8> },
    /// The control block proving that leaf's commitment.
    TapControlBlock { control_block: Vec<u8> },
    /// A Schnorr signature by `key`, for either spend path.
    SchnorrSigPk { key: PlanKey, spend: SchnorrSpend },
    /// A Schnorr signature identified by the key's hash and a leaf hash;
    /// always a script-path spend. The key hash contributes no origin data.
    SchnorrSigPkHash { key_hash: Vec<u8>, leaf_hash: Vec<u8> },
    /// An ECDSA signature by `key` (legacy/segwit descriptors).
    EcdsaSigPk { key: PlanKey },
    /// Any other satisfaction item (preimages, absent items, ...); the
    /// populator ignores these.
    Other,
}

/// The inner item of a `Sh` descriptor. Each variant carries the script the
/// populator reads from it: for `Wsh` the witness script, for the others the
/// script that becomes the redeem script.
#[derive(Clone, Debug)]
pub enum ShInner {
    Wsh { script: Vec<u8> },
    Wpkh { script: Vec<u8> },
    SortedMulti { script: Vec<u8> },
    Ms { script: Vec<u8> },
}

/// A descriptor, reduced to the data the populator reads from it.
#[derive(Clone, Debug)]
pub enum Descriptor {
    Bare,
    Pkh,
    Wpkh,
    Sh { inner: ShInner },
    /// Carries the witness script.
    Wsh { script: Vec<u8> },
    /// Carries the merkle root of the output's script tree (`None` for a
    /// key-only Taproot output).
    Tr { merkle_root: Option<Vec<u8>> },
}

/// A spending plan: the descriptor it was derived from, plus the ordered
/// template of placeholders required to satisfy it.
#[derive(Clone, Debug)]
pub struct Plan {
    pub descriptor: Descriptor,
    pub template: Vec<Placeholder>,
}

/// One entry of a map from a public key to its origin.
#[derive(Clone, Debug)]
pub struct KeyedOrigin {
    pub key: Vec<u8>,
    pub origin: KeyOrigin,
}

/// One entry of the Taproot key-origin map: a key, the leaf hashes it
/// signs for, and its origin.
#[derive(Clone, Debug)]
pub struct TapKeyOrigin {
    pub key: Vec<u8>,
    pub leaf_hashes: Vec<Vec<u8>>,
    pub origin: KeyOrigin,
}

/// One entry of the map from a control block to the script it commits to.
#[derive(Clone, Debug)]
pub struct TapScriptEntry {
    pub control_block: Vec<u8>,
    pub script: Vec<u8>,
    pub leaf_version: u8,
}

/// The PSBT input record that the populator mutates in place. The maps are
/// held as entry vectors with pairwise-distinct keys; their views are
/// mathematical maps.
#[derive(Clone, Debug)]
pub struct Input {
    pub tap_merkle_root: Option<Vec<u8>>,
    pub tap_internal_key: Option<Vec<u8>>,
    pub tap_key_origins: Vec<TapKeyOrigin>,
    pub tap_scripts: Vec<TapScriptEntry>,
    pub bip32_derivation: Vec<KeyedOrigin>,
    pub witness_script: Option<Vec<u8>>,
    pub redeem_script: Option<Vec<u8>>,
}

/// Mathematical model of an [`Input`].
#[verifier::ext_equal]
pub ghost struct InputModel {
    pub tap_merkle_root: Option<Seq<u8>>,
    pub tap_internal_key: Option<Seq<u8>>,
    pub tap_key_origins: Map<Seq<u8>, (Seq<Seq<u8>>, KeyOriginModel)>,
    pub tap_scripts: Map<Seq<u8>, (Seq<u8>, u8)>,
    pub bip32_derivation: Map<Seq<u8>, KeyOriginModel>,
    pub witness_script: Option<Seq<u8>>,
    pub redeem_script: Option<Seq<u8>>,
}

/// View of an optional byte string.
pub open spec fn opt_bytes(o: Option<Vec<u8>>) -> Option<Seq<u8>> {
    match o {
        Some(b) => Some(b@),
        None => None,
    }
}

/// View of a vector of byte strings.
pub open spec fn bytes_seq(s: Seq<Vec<u8>>) -> Seq<Seq<u8>> {
    s.map_values(|b: Vec<u8>| b@)
}

/// The map an entry vector of [`KeyedOrigin`] stands for; a later entry for
/// the same key overwrites an earlier one.
pub open spec fn origin_map(s: Seq<KeyedOrigin>) -> Map<Seq<u8>, KeyOriginModel>
    decreases s.len(),
{
    if s.len() == 0 {
        Map::empty()
    } else {
        origin_map(s.drop_last()).insert(s.last().key@, s.last().origin@)
    }
}

/// The map an entry vector of [`TapKeyOrigin`] stands for.
pub open spec fn tap_origin_map(s: Seq<TapKeyOrigin>) -> Map<Seq<u8>, (Seq<Seq<u8>>, KeyOriginModel)>
    decreases s.len(),
{
    if s.len() == 0 {
        Map::empty()
    } else {
        tap_origin_map(s.drop_last()).insert(
            s.last().key@,
            (bytes_seq(s.last().leaf_hashes@), s.last().origin@),
        )
    }
}

/// The map an entry vector of [`TapScriptEntry`] stands for.
pub open spec fn tap_script_map(s: Seq<TapScriptEntry>) -> Map<Seq<u8>, (Seq<u8>, u8)>
    decreases s.len(),
{
    if s.len() == 0 {
        Map::empty()
    } else {
        tap_script_map(s.drop_last()).insert(
            s.last().control_block@,
            (s.last().script@, s.last().leaf_version),
        )
    }
}

/// The keys of the entries are pairwise distinct.
pub open spec fn origin_keys_unique(s: Seq<KeyedOrigin>) -> bool {
    forall|i: int, j: int| 0 <= i < j < s.len() ==> s[i].key@ != s[j].key@
}

/// The keys of the entries are pairwise distinct.
pub open spec fn tap_origin_keys_unique(s: Seq<TapKeyOrigin>) -> bool {
    forall|i: int, j: int| 0 <= i < j < s.len() ==> s[i].key@ != s[j].key@
}

/// The control blocks of the entries are pairwise distinct.
pub open spec fn tap_script_keys_unique(s: Seq<TapScriptEntry>) -> bool {
    forall|i: int, j: int| 0 <= i < j < s.len() ==> s[i].control_block@ != s[j].control_block@
}

/// A sequence without duplicate elements (set semantics).
pub open spec fn hashes_distinct(hs: Seq<Seq<u8>>) -> bool {
    forall|i: int, j: int| 0 <= i < j < hs.len() ==> hs[i] != hs[j]
}

impl View for Input {
    type V = InputModel;

    open spec fn view(&self) -> InputModel {
        InputModel {
            tap_merkle_root: opt_bytes(self.tap_merkle_root),
            tap_internal_key: opt_bytes(self.tap_internal_key),
            tap_key_origins: tap_origin_map(self.tap_key_origins@),
            tap_scripts: tap_script_map(self.tap_scripts@),
            bip32_derivation: origin_map(self.bip32_derivation@),
            witness_script: opt_bytes(self.witness_script),
            redeem_script: opt_bytes(self.redeem_script),
        }
    }
}

/// The model of an input all of whose fields are still unset.
pub open spec fn empty_input() -> InputModel {
    InputModel {
        tap_merkle_root: None,
        tap_internal_key: None,
        tap_key_origins: Map::empty(),
        tap_scripts: Map::empty(),
        bip32_derivation: Map::empty(),
        witness_script: None,
        redeem_script: None,
    }
}

impl Input {
    /// The entry vectors have pairwise-distinct keys, and each Taproot
    /// key-origin entry holds its leaf hashes with set semantics.
    pub open spec fn wf(&self) -> bool {
        &&& origin_keys_unique(self.bip32_derivation@)
        &&& tap_origin_keys_unique(self.tap_key_origins@)
        &&& tap_script_keys_unique(self.tap_scripts@)
        &&& forall|i: int|
            0 <= i < self.tap_key_origins@.len() ==> hashes_distinct(
                bytes_seq((#[trigger] self.tap_key_origins@[i]).leaf_hashes@),
            )
    }

    /// A fresh input record with every field unset, as an external PSBT
    /// builder would hand it to the populator.
    pub fn new() -> (r: Input)
        ensures
            r.wf(),
            r@ == empty_input(),
    {
        let r = Input {
            tap_merkle_root: None,
            tap_internal_key: None,
            tap_key_origins: Vec::new(),
            tap_scripts: Vec::new(),
            bip32_derivation: Vec::new(),
            witness_script: None,
            redeem_script: None,
        };
        proof {
            assert(r@ =~~= empty_input());
        }
        r
    }
}

} // verus!
