//! A two-party atomic-swap escrow over an account-based token ledger.
//!
//! A maker deposits a quantity of asset A into a custody vault controlled by
//! a derived, keyless authority and names the quantity of asset B wanted in
//! return. A taker fulfills the offer by paying asset B directly to the
//! maker, receiving the vault's asset A; or the maker cancels and reclaims
//! custody. Every operation is atomic: it either fully applies or leaves the
//! ledger unchanged.

mod codec;
mod custody;
mod errors;
mod ids;
mod kv;
mod laws;
mod ledger;
mod model;
mod state;

pub use codec::discriminator;
pub use codec::lemma_record_bytes_injective;
pub use codec::lemma_record_bytes_len;
pub use codec::record_bytes;
pub use codec::wf_record_data;
pub use custody::derived_address_of;
pub use errors::EscrowError;
pub use laws::lemma_empty_consistent;
pub use laws::lemma_exchange_atomic;
pub use laws::lemma_exchange_conservation;
pub use laws::lemma_exchange_mint_integrity;
pub use laws::lemma_exchange_preserves_consistency;
pub use laws::lemma_make_atomic;
pub use laws::lemma_make_preserves_consistency;
pub use laws::lemma_mint_to_preserves_consistency;
pub use laws::lemma_refund_atomic;
pub use laws::lemma_refund_authorization;
pub use laws::lemma_refund_preserves_consistency;
pub use laws::lemma_refund_symmetry;
pub use laws::lemma_single_use_after_exchange;
pub use laws::lemma_single_use_after_refund;
pub use ledger::Ledger;
pub use ledger::MakeOffer;
pub use ledger::TakeOffer;
pub use model::AcctKey;
pub use model::LedgerView;
pub use model::balance_or_zero;
pub use model::consistent;
pub use model::exchange_spec;
pub use model::make_spec;
pub use model::mint_to_spec;
pub use model::refund_spec;
pub use custody::escrow_tag;
pub use custody::record_address;
pub use custody::record_address_of;
pub use ids::AccountId;
pub use ids::id_eq;
pub use state::Escrow;
pub use state::EscrowData;
