//! Populating a PSBT input from a spending plan.
//!
//! Given a plan — a descriptor together with the ordered template of
//! placeholders needed to satisfy it — the populator writes into a PSBT
//! input record exactly the metadata a signer needs: for a Taproot
//! descriptor the merkle root, internal key, key origins and
//! control-block-to-script map; for a legacy/segwit descriptor the BIP-32
//! origins and the witness/redeem scripts the descriptor variant dictates.

pub mod types;
pub mod script;
pub mod model;
pub mod entries;
pub mod tap;
pub mod legacy;
pub mod update;
pub mod laws;

pub use types::{
    Descriptor, Input, InputModel, KeyOrigin, KeyOriginModel, KeyedOrigin, Placeholder, Plan,
    PlanKey, SchnorrSpend, ShInner, TapKeyOrigin, TapScriptEntry,
};
pub use update::{plan_is_consistent, update_psbt_input};
