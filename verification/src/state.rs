//! The escrow record: the persistent state describing one open offer.

use vstd::prelude::*;
use crate::ids::AccountId;

verus! {

/// One open offer. Owned by the protocol, stored at the address derived
/// from `(escrow tag, maker, seed)`, and destroyed by the one fulfillment
/// or refund that consumes it. The deposited amount is never cached here:
/// it is read from the vault balance when custody is released.
#[derive(Clone, Copy, Debug, PartialEq, Eq)]
pub struct Escrow {
    /// Caller-chosen disambiguator: one maker may hold several open offers.
    pub seed: u64,
    /// The offer's creator, and the sole beneficiary of a refund.
    pub maker: AccountId,
    /// The offered asset: the mint the vault holds.
    pub token_mint_a: AccountId,
    /// The requested asset: the mint the maker is paid in.
    pub token_mint_b: AccountId,
    /// The exact quantity of asset B the maker demands.
    pub receive_amount: u64,
    /// The derivation proof byte that lets the custody authority sign.
    pub bump: u8,
}

/// The mathematical content of an [`Escrow`] record: identities as byte
/// sequences, quantities as integers.
pub struct EscrowData {
    pub seed: u64,
    pub maker: Seq<u8>,
    pub token_mint_a: Seq<u8>,
    pub token_mint_b: Seq<u8>,
    pub receive_amount: u64,
    pub bump: u8,
}

impl View for Escrow {
    type V = EscrowData;

    open spec fn view(&self) -> EscrowData {
        EscrowData {
            seed: self.seed,
            maker: self.maker@,
            token_mint_a: self.token_mint_a@,
            token_mint_b: self.token_mint_b@,
            receive_amount: self.receive_amount,
            bump: self.bump,
        }
    }
}

} // verus!
