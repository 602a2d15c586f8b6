//! The mathematical model of the ledger, and the three operations as pure
//! state transitions. The executable [`crate::ledger::Ledger`] is proved to
//! follow these transitions exactly; the protocol laws are proved of them.

use vstd::prelude::*;
use crate::custody::record_address_of;
use crate::errors::EscrowError;
use crate::state::EscrowData;

verus! {

/// A token-account key: `(authority, mint)`. Each authority holds at most
/// one account per mint, as an associated-token layout has it; the vault of
/// a record is the account keyed by the record's derived address and the
/// offered mint.
pub type AcctKey = (Seq<u8>, Seq<u8>);

/// The ledger as mathematics: every token balance, every open record, and
/// the protocol's program identity under which record addresses derive.
pub struct LedgerView {
    pub program: Seq<u8>,
    pub balances: Map<AcctKey, u64>,
    pub records: Map<Seq<u8>, EscrowData>,
}

/// The balance at `k`, taking an absent account as empty.
pub open spec fn balance_or_zero(balances: Map<AcctKey, u64>, k: AcctKey) -> int {
    if balances.contains_key(k) {
        balances[k] as int
    } else {
        0
    }
}

/// The data-model invariant: every open record sits at the address its own
/// `(maker, seed)` re-derive to, with the matching proof byte; the custody
/// address names no party; and the record's funded vault exists.
pub open spec fn consistent(s: LedgerView) -> bool {
    forall|addr: Seq<u8>| #[trigger] s.records.contains_key(addr) ==> {
        let r = s.records[addr];
        &&& record_address_of(r.maker, r.seed, s.program) == Some((addr, r.bump))
        &&& addr != r.maker
        &&& s.balances.contains_key((addr, r.token_mint_a))
    }
}

/// Issues `amount` of `mint` to `authority`, creating the holding account
/// if it is absent. This is the issuance edge of the out-of-scope token
/// subsystem: how parties come to hold assets at all.
pub open spec fn mint_to_spec(
    s: LedgerView,
    authority: Seq<u8>,
    mint: Seq<u8>,
    amount: u64,
) -> (LedgerView, Result<(), EscrowError>) {
    let k = (authority, mint);
    if balance_or_zero(s.balances, k) + amount > u64::MAX {
        (s, Err(EscrowError::Overflow))
    } else {
        (
            LedgerView {
                balances: s.balances.insert(
                    k,
                    (balance_or_zero(s.balances, k) + amount) as u64,
                ),
                ..s
            },
            Ok(()),
        )
    }
}

/// Opens an offer: moves `deposit` of `mint_a` from the maker's holding
/// account into a freshly created vault whose authority is the record's
/// derived address, then creates the record. Fails without any state
/// change when the maker did not sign, no derivation exists, the record or
/// vault already exists, or the deposit cannot be funded. On success,
/// returns the new record's address.
pub open spec fn make_spec(
    s: LedgerView,
    signer: Seq<u8>,
    maker: Seq<u8>,
    mint_a: Seq<u8>,
    mint_b: Seq<u8>,
    seed: u64,
    receive: u64,
    deposit: u64,
) -> (LedgerView, Result<Seq<u8>, EscrowError>) {
    if signer != maker {
        (s, Err(EscrowError::Unauthorized))
    } else if record_address_of(maker, seed, s.program) is None {
        (s, Err(EscrowError::DerivationFailed))
    } else {
        let (addr, bump) = record_address_of(maker, seed, s.program)->0;
        if s.records.contains_key(addr) {
            (s, Err(EscrowError::AlreadyExists))
        } else if addr == maker {
            (s, Err(EscrowError::InvalidAccount))
        } else if s.balances.contains_key((addr, mint_a)) {
            (s, Err(EscrowError::AlreadyExists))
        } else if !s.balances.contains_key((maker, mint_a)) {
            (s, Err(EscrowError::MissingAccount))
        } else if s.balances[(maker, mint_a)] < deposit {
            (s, Err(EscrowError::InsufficientBalance))
        } else {
            let funded = s.balances.insert(
                (maker, mint_a),
                (s.balances[(maker, mint_a)] - deposit) as u64,
            ).insert((addr, mint_a), deposit);
            let record = EscrowData {
                seed,
                maker,
                token_mint_a: mint_a,
                token_mint_b: mint_b,
                receive_amount: receive,
                bump,
            };
            (
                LedgerView {
                    balances: funded,
                    records: s.records.insert(addr, record),
                    ..s
                },
                Ok(addr),
            )
        }
    }
}

/// Fulfills an offer atomically: pays `receive_amount` of asset B from the
/// taker directly to the maker, releases the whole vault balance of asset A
/// to the taker, and destroys the vault and the record. Fails without any
/// state change when the record is absent or does not re-derive, the
/// claimed maker or a supplied mint disagrees with the record, or either
/// leg cannot complete.
pub open spec fn exchange_spec(
    s: LedgerView,
    taker: Seq<u8>,
    maker: Seq<u8>,
    record_addr: Seq<u8>,
    mint_a: Seq<u8>,
    mint_b: Seq<u8>,
) -> (LedgerView, Result<(), EscrowError>) {
    if !s.records.contains_key(record_addr) {
        (s, Err(EscrowError::NotFound))
    } else {
        let r = s.records[record_addr];
        if record_address_of(r.maker, r.seed, s.program) != Some((record_addr, r.bump)) {
            (s, Err(EscrowError::DerivationMismatch))
        } else if maker != r.maker {
            (s, Err(EscrowError::MakerMismatch))
        } else if mint_a != r.token_mint_a || mint_b != r.token_mint_b {
            (s, Err(EscrowError::MintMismatch))
        } else if taker == record_addr || r.maker == record_addr {
            (s, Err(EscrowError::InvalidAccount))
        } else if !s.balances.contains_key((taker, mint_b)) {
            (s, Err(EscrowError::MissingAccount))
        } else if s.balances[(taker, mint_b)] < r.receive_amount {
            (s, Err(EscrowError::InsufficientBalance))
        } else if !s.balances.contains_key((record_addr, mint_a)) {
            (s, Err(EscrowError::MissingAccount))
        } else {
            // Leg one: asset B, taker to maker, never touching the vault.
            let paid = s.balances.insert(
                (taker, mint_b),
                (s.balances[(taker, mint_b)] - r.receive_amount) as u64,
            );
            if balance_or_zero(paid, (r.maker, mint_b)) + r.receive_amount > u64::MAX {
                (s, Err(EscrowError::Overflow))
            } else {
                let leg_b = paid.insert(
                    (r.maker, mint_b),
                    (balance_or_zero(paid, (r.maker, mint_b)) + r.receive_amount) as u64,
                );
                // Leg two: the whole vault balance of asset A to the taker,
                // then the vault is closed.
                let vault_amount = s.balances[(record_addr, mint_a)];
                if balance_or_zero(leg_b, (taker, mint_a)) + vault_amount > u64::MAX {
                    (s, Err(EscrowError::Overflow))
                } else {
                    let leg_a = leg_b.insert(
                        (taker, mint_a),
                        (balance_or_zero(leg_b, (taker, mint_a)) + vault_amount) as u64,
                    ).remove((record_addr, mint_a));
                    (
                        LedgerView {
                            balances: leg_a,
                            records: s.records.remove(record_addr),
                            ..s
                        },
                        Ok(()),
                    )
                }
            }
        }
    }
}

/// Cancels an offer: returns the whole vault balance of asset A to the
/// maker's holding account, and destroys the vault and the record. Only the
/// record's own maker may refund; asset B never moves.
pub open spec fn refund_spec(s: LedgerView, signer: Seq<u8>, record_addr: Seq<u8>) -> (
    LedgerView,
    Result<(), EscrowError>,
) {
    if !s.records.contains_key(record_addr) {
        (s, Err(EscrowError::NotFound))
    } else {
        let r = s.records[record_addr];
        if signer != r.maker {
            (s, Err(EscrowError::Unauthorized))
        } else if record_address_of(r.maker, r.seed, s.program) != Some((record_addr, r.bump)) {
            (s, Err(EscrowError::DerivationMismatch))
        } else if r.maker == record_addr {
            (s, Err(EscrowError::InvalidAccount))
        } else if !s.balances.contains_key((record_addr, r.token_mint_a)) {
            (s, Err(EscrowError::MissingAccount))
        } else {
            let vault_amount = s.balances[(record_addr, r.token_mint_a)];
            let dest = (r.maker, r.token_mint_a);
            if balance_or_zero(s.balances, dest) + vault_amount > u64::MAX {
                (s, Err(EscrowError::Overflow))
            } else {
                let refunded = s.balances.insert(
                    dest,
                    (balance_or_zero(s.balances, dest) + vault_amount) as u64,
                ).remove((record_addr, r.token_mint_a));
                (
                    LedgerView {
                        balances: refunded,
                        records: s.records.remove(record_addr),
                        ..s
                    },
                    Ok(()),
                )
            }
        }
    }
}

} // verus!
