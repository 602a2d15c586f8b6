//! The protocol's laws, proved once and for all of the ledger transitions:
//! atomicity, single use of a record, conservation of the swapped amounts,
//! refund symmetry, authorization, mint integrity, and preservation of the
//! data-model invariant.

use vstd::prelude::*;
use crate::errors::EscrowError;
use crate::model::LedgerView;
use crate::model::balance_or_zero;
use crate::model::consistent;
use crate::model::exchange_spec;
use crate::model::make_spec;
use crate::model::mint_to_spec;
use crate::model::refund_spec;

verus! {

/// Atomicity: an Exchange attempt either lands both legs or leaves the
/// ledger exactly as it was. On success the record and its vault are gone,
/// and, with distinct parties and assets, the taker gained the whole vault
/// balance of asset A, the maker gained the demanded amount of asset B, and
/// the taker paid exactly that amount; on any error nothing moved at all.
pub proof fn lemma_exchange_atomic(
    s: LedgerView,
    taker: Seq<u8>,
    maker: Seq<u8>,
    record_addr: Seq<u8>,
    mint_a: Seq<u8>,
    mint_b: Seq<u8>,
)
    ensures
        ({
            let (s2, res) = exchange_spec(s, taker, maker, record_addr, mint_a, mint_b);
            &&& (res is Err ==> s2 == s)
            &&& (res is Ok ==> ({
                let r = s.records[record_addr];
                let vault = s.balances[(record_addr, mint_a)];
                &&& s.records.contains_key(record_addr)
                &&& s2.records == s.records.remove(record_addr)
                &&& !s2.records.contains_key(record_addr)
                &&& !s2.balances.contains_key((record_addr, mint_a))
                &&& (taker != r.maker && mint_a != mint_b ==> {
                    &&& balance_or_zero(s2.balances, (taker, mint_a)) == balance_or_zero(
                        s.balances,
                        (taker, mint_a),
                    ) + vault
                    &&& balance_or_zero(s2.balances, (r.maker, mint_b)) == balance_or_zero(
                        s.balances,
                        (r.maker, mint_b),
                    ) + r.receive_amount
                    &&& balance_or_zero(s2.balances, (taker, mint_b)) == balance_or_zero(
                        s.balances,
                        (taker, mint_b),
                    ) - r.receive_amount
                })
            }))
        }),
{
}

/// A rejected Make leaves the ledger exactly as it was; a successful one
/// moves exactly the deposit into the new record's vault.
pub proof fn lemma_make_atomic(
    s: LedgerView,
    signer: Seq<u8>,
    maker: Seq<u8>,
    mint_a: Seq<u8>,
    mint_b: Seq<u8>,
    seed: u64,
    receive: u64,
    deposit: u64,
)
    ensures
        ({
            let (s2, res) = make_spec(s, signer, maker, mint_a, mint_b, seed, receive, deposit);
            &&& (res is Err ==> s2 == s)
            &&& (res is Ok ==> ({
                let addr = res->Ok_0;
                &&& s2.records.contains_key(addr)
                &&& s2.balances[(addr, mint_a)] == deposit
                &&& balance_or_zero(s2.balances, (maker, mint_a)) == balance_or_zero(
                    s.balances,
                    (maker, mint_a),
                ) - deposit
            }))
        }),
{
}

/// A rejected Refund leaves the ledger exactly as it was.
pub proof fn lemma_refund_atomic(s: LedgerView, signer: Seq<u8>, record_addr: Seq<u8>)
    ensures
        refund_spec(s, signer, record_addr).1 is Err ==> refund_spec(s, signer, record_addr).0
            == s,
{
}

/// Single use, after a fulfillment: once an Exchange has consumed a record,
/// every later Exchange or Refund of that record fails with `NotFound` and
/// changes nothing. The record's existence is itself the lock.
pub proof fn lemma_single_use_after_exchange(
    s: LedgerView,
    taker: Seq<u8>,
    maker: Seq<u8>,
    record_addr: Seq<u8>,
    mint_a: Seq<u8>,
    mint_b: Seq<u8>,
    taker2: Seq<u8>,
    maker2: Seq<u8>,
    mint_a2: Seq<u8>,
    mint_b2: Seq<u8>,
    signer2: Seq<u8>,
)
    requires
        exchange_spec(s, taker, maker, record_addr, mint_a, mint_b).1 is Ok,
    ensures
        ({
            let s1 = exchange_spec(s, taker, maker, record_addr, mint_a, mint_b).0;
            &&& exchange_spec(s1, taker2, maker2, record_addr, mint_a2, mint_b2) == (
                s1,
                Err::<(), EscrowError>(EscrowError::NotFound),
            )
            &&& refund_spec(s1, signer2, record_addr) == (
                s1,
                Err::<(), EscrowError>(EscrowError::NotFound),
            )
        }),
{
}

/// Single use, after a cancellation: once a Refund has consumed a record,
/// every later Exchange or Refund of that record fails with `NotFound` and
/// changes nothing.
pub proof fn lemma_single_use_after_refund(
    s: LedgerView,
    signer: Seq<u8>,
    record_addr: Seq<u8>,
    taker2: Seq<u8>,
    maker2: Seq<u8>,
    mint_a2: Seq<u8>,
    mint_b2: Seq<u8>,
    signer2: Seq<u8>,
)
    requires
        refund_spec(s, signer, record_addr).1 is Ok,
    ensures
        ({
            let s1 = refund_spec(s, signer, record_addr).0;
            &&& exchange_spec(s1, taker2, maker2, record_addr, mint_a2, mint_b2) == (
                s1,
                Err::<(), EscrowError>(EscrowError::NotFound),
            )
            &&& refund_spec(s1, signer2, record_addr) == (
                s1,
                Err::<(), EscrowError>(EscrowError::NotFound),
            )
        }),
{
}

/// Conservation: a Make followed by a successful Exchange of the record it
/// created moves exactly the deposited amount of asset A to the taker and
/// exactly the demanded amount of asset B to the maker, and destroys the
/// vault and the record. Stated for distinct assets and distinct parties;
/// a taker fulfilling its own offer, or a swap of an asset against itself,
/// nets differently by plain arithmetic.
pub proof fn lemma_exchange_conservation(
    s: LedgerView,
    signer: Seq<u8>,
    maker: Seq<u8>,
    mint_a: Seq<u8>,
    mint_b: Seq<u8>,
    seed: u64,
    receive: u64,
    deposit: u64,
    taker: Seq<u8>,
)
    requires
        make_spec(s, signer, maker, mint_a, mint_b, seed, receive, deposit).1 is Ok,
        mint_a != mint_b,
        taker != maker,
        ({
            let (s1, res) = make_spec(s, signer, maker, mint_a, mint_b, seed, receive, deposit);
            exchange_spec(s1, taker, maker, res->Ok_0, mint_a, mint_b).1 is Ok
        }),
    ensures
        ({
            let (s1, res) = make_spec(s, signer, maker, mint_a, mint_b, seed, receive, deposit);
            let addr = res->Ok_0;
            let s2 = exchange_spec(s1, taker, maker, addr, mint_a, mint_b).0;
            &&& balance_or_zero(s2.balances, (taker, mint_a)) == balance_or_zero(
                s1.balances,
                (taker, mint_a),
            ) + deposit
            &&& balance_or_zero(s2.balances, (maker, mint_b)) == balance_or_zero(
                s1.balances,
                (maker, mint_b),
            ) + receive
            &&& !s2.records.contains_key(addr)
            &&& !s2.balances.contains_key((addr, mint_a))
        }),
{
}

/// Refund symmetry: a Make followed by a successful Refund restores the
/// maker's asset-A balance to exactly what it was before the Make, destroys
/// the vault and the record, and, when the two assets are distinct, moves
/// no asset B at all.
pub proof fn lemma_refund_symmetry(
    s: LedgerView,
    signer: Seq<u8>,
    maker: Seq<u8>,
    mint_a: Seq<u8>,
    mint_b: Seq<u8>,
    seed: u64,
    receive: u64,
    deposit: u64,
)
    requires
        make_spec(s, signer, maker, mint_a, mint_b, seed, receive, deposit).1 is Ok,
        ({
            let (s1, res) = make_spec(s, signer, maker, mint_a, mint_b, seed, receive, deposit);
            refund_spec(s1, maker, res->Ok_0).1 is Ok
        }),
    ensures
        ({
            let (s1, res) = make_spec(s, signer, maker, mint_a, mint_b, seed, receive, deposit);
            let addr = res->Ok_0;
            let s2 = refund_spec(s1, maker, addr).0;
            &&& balance_or_zero(s2.balances, (maker, mint_a)) == balance_or_zero(
                s.balances,
                (maker, mint_a),
            )
            &&& !s2.records.contains_key(addr)
            &&& !s2.balances.contains_key((addr, mint_a))
            &&& (mint_b != mint_a ==> forall|who: Seq<u8>|
                #[trigger] balance_or_zero(s2.balances, (who, mint_b)) == balance_or_zero(
                    s1.balances,
                    (who, mint_b),
                ))
        }),
{
}

/// Authorization: a Refund signed by anyone but the record's own maker is
/// rejected as `Unauthorized`, with no state change.
pub proof fn lemma_refund_authorization(s: LedgerView, signer: Seq<u8>, record_addr: Seq<u8>)
    requires
        s.records.contains_key(record_addr),
        signer != s.records[record_addr].maker,
    ensures
        refund_spec(s, signer, record_addr) == (
            s,
            Err::<(), EscrowError>(EscrowError::Unauthorized),
        ),
{
}

/// Mint integrity: on a consistent ledger, an Exchange naming an asset
/// identifier that disagrees with the record's stored mints is rejected as
/// `MintMismatch` before any transfer, with no state change.
pub proof fn lemma_exchange_mint_integrity(
    s: LedgerView,
    taker: Seq<u8>,
    record_addr: Seq<u8>,
    mint_a: Seq<u8>,
    mint_b: Seq<u8>,
)
    requires
        consistent(s),
        s.records.contains_key(record_addr),
        mint_a != s.records[record_addr].token_mint_a || mint_b
            != s.records[record_addr].token_mint_b,
    ensures
        exchange_spec(s, taker, s.records[record_addr].maker, record_addr, mint_a, mint_b) == (
            s,
            Err::<(), EscrowError>(EscrowError::MintMismatch),
        ),
{
}

/// Every Make leaves a consistent ledger consistent: each record still
/// re-derives to its own address, and its funded vault still exists.
pub proof fn lemma_make_preserves_consistency(
    s: LedgerView,
    signer: Seq<u8>,
    maker: Seq<u8>,
    mint_a: Seq<u8>,
    mint_b: Seq<u8>,
    seed: u64,
    receive: u64,
    deposit: u64,
)
    requires
        consistent(s),
    ensures
        consistent(make_spec(s, signer, maker, mint_a, mint_b, seed, receive, deposit).0),
{
    let (s2, res) = make_spec(s, signer, maker, mint_a, mint_b, seed, receive, deposit);
    if res is Ok {
        let addr = res->Ok_0;
        assert forall|a: Seq<u8>| #[trigger] s2.records.contains_key(a) implies {
            let r = s2.records[a];
            &&& crate::custody::record_address_of(r.maker, r.seed, s2.program) == Some((a, r.bump))
            &&& a != r.maker
            &&& s2.balances.contains_key((a, r.token_mint_a))
        } by {
            if a != addr {
                assert(s.records.contains_key(a));
                assert(s2.records[a] == s.records[a]);
            }
        }
    }
}

/// Every Exchange leaves a consistent ledger consistent.
pub proof fn lemma_exchange_preserves_consistency(
    s: LedgerView,
    taker: Seq<u8>,
    maker: Seq<u8>,
    record_addr: Seq<u8>,
    mint_a: Seq<u8>,
    mint_b: Seq<u8>,
)
    requires
        consistent(s),
    ensures
        consistent(exchange_spec(s, taker, maker, record_addr, mint_a, mint_b).0),
{
    let (s2, res) = exchange_spec(s, taker, maker, record_addr, mint_a, mint_b);
    if res is Ok {
        assert forall|a: Seq<u8>| #[trigger] s2.records.contains_key(a) implies {
            let r = s2.records[a];
            &&& crate::custody::record_address_of(r.maker, r.seed, s2.program) == Some((a, r.bump))
            &&& a != r.maker
            &&& s2.balances.contains_key((a, r.token_mint_a))
        } by {
            assert(s.records.contains_key(a));
            assert(s2.records[a] == s.records[a]);
            assert(a != record_addr);
        }
    }
}

/// Every Refund leaves a consistent ledger consistent.
pub proof fn lemma_refund_preserves_consistency(
    s: LedgerView,
    signer: Seq<u8>,
    record_addr: Seq<u8>,
)
    requires
        consistent(s),
    ensures
        consistent(refund_spec(s, signer, record_addr).0),
{
    let (s2, res) = refund_spec(s, signer, record_addr);
    if res is Ok {
        assert forall|a: Seq<u8>| #[trigger] s2.records.contains_key(a) implies {
            let r = s2.records[a];
            &&& crate::custody::record_address_of(r.maker, r.seed, s2.program) == Some((a, r.bump))
            &&& a != r.maker
            &&& s2.balances.contains_key((a, r.token_mint_a))
        } by {
            assert(s.records.contains_key(a));
            assert(s2.records[a] == s.records[a]);
            assert(a != record_addr);
        }
    }
}

/// Issuance touches no record and removes no account, so it too leaves a
/// consistent ledger consistent.
pub proof fn lemma_mint_to_preserves_consistency(
    s: LedgerView,
    authority: Seq<u8>,
    mint: Seq<u8>,
    amount: u64,
)
    requires
        consistent(s),
    ensures
        consistent(mint_to_spec(s, authority, mint, amount).0),
{
}

/// An empty ledger is consistent.
pub proof fn lemma_empty_consistent(program: Seq<u8>)
    ensures
        consistent(
            LedgerView {
                program,
                balances: Map::<(Seq<u8>, Seq<u8>), u64>::empty(),
                records: Map::<Seq<u8>, crate::state::EscrowData>::empty(),
            },
        ),
{
}

} // verus!
