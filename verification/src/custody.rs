//! The derived custody authority: a keyless, deterministically computed
//! address that controls an escrow record and its vault.
//!
//! Given a namespace tag, an owner key and a nonce, the runtime derives an
//! address plus a discriminator byte (the "bump") such that no private key
//! controls the address, and a request may sign as it only by re-supplying
//! the exact derivation inputs. The derivation itself is a deterministic
//! computation of the outside runtime library; this module names its result
//! and re-checks it wherever a record is trusted.

use vstd::prelude::*;
use crate::ids::AccountId;

verus! {

/// What `Pubkey::try_find_program_address` returns for the seed list
/// `[namespace, owner, nonce as 8 little-endian bytes]` under `program`:
/// `Some((address, bump))` when a viable derivation exists, `None` in the
/// statistically improbable event that none does. The result is a pure
/// function of the four arguments.
pub uninterp spec fn derived_address_of(
    namespace: Seq<u8>,
    owner: Seq<u8>,
    nonce: u64,
    program: Seq<u8>,
) -> Option<(Seq<u8>, u8)>;

/// Relies on `anchor_lang::prelude::Pubkey::try_find_program_address`
/// (solana_pubkey's `Address`): a deterministic search, over sha-256 of the
/// seeds, a bump byte and the program id, for the first off-curve derived
/// address. Its result depends on the arguments alone; `None` comes back
/// only when no bump yields a viable address.
#[verifier::external_body]
fn find_derived_address(
    namespace: &[u8],
    owner: &AccountId,
    nonce: u64,
    program: &AccountId,
) -> (r: Option<(AccountId, u8)>)
    ensures
        ({
            let d = derived_address_of(namespace@, owner@, nonce, program@);
            match r {
                Some(p) => d == Some((p.0@, p.1)),
                None => d is None,
            }
        }),
{
    let program_id = anchor_lang::prelude::Pubkey::new_from_array(program.bytes);
    let nonce_bytes = nonce.to_le_bytes();
    let seeds: [&[u8]; 3] = [namespace, &owner.bytes, &nonce_bytes];
    anchor_lang::prelude::Pubkey::try_find_program_address(&seeds, &program_id)
        .map(|p| (AccountId { bytes: p.0.to_bytes() }, p.1))
}

/// The namespace tag of escrow records: the bytes of `"escrow"`.
pub open spec fn escrow_tag() -> Seq<u8> {
    seq![101u8, 115u8, 99u8, 114u8, 111u8, 119u8]
}

/// The derived address and bump of the record for `(maker, seed)` under
/// `program`; also the custody authority of that record's vault.
pub open spec fn record_address_of(maker: Seq<u8>, seed: u64, program: Seq<u8>) -> Option<
    (Seq<u8>, u8),
> {
    derived_address_of(escrow_tag(), maker, seed, program)
}

/// Derives the address and bump of the record for `(maker, seed)` under
/// `program`. Anyone can recompute a record's address from public data
/// alone; every operation re-derives it rather than trusting a caller.
pub fn record_address(maker: &AccountId, seed: u64, program: &AccountId) -> (r: Option<
    (AccountId, u8),
>)
    ensures
        ({
            let d = record_address_of(maker@, seed, program@);
            match r {
                Some(p) => d == Some((p.0@, p.1)),
                None => d is None,
            }
        }),
{
    let tag: [u8; 6] = [101, 115, 99, 114, 111, 119];
    proof {
        assert(tag@ =~= escrow_tag());
    }
    find_derived_address(tag.as_slice(), maker, seed, program)
}

} // verus!
