//! The executable ledger: token holdings and open escrow records in a
//! transactional keyed store, with the three operations proved to follow
//! the transitions of [`crate::model`] exactly.

use vstd::prelude::*;
use vstd::pervasive::VecAdditionalExecFns;
use vstd::pervasive::unreached;
use crate::custody::record_address;
use crate::errors::EscrowError;
use crate::ids::AccountId;
use crate::ids::id_eq;
use crate::kv::RecordEntry;
use crate::kv::TokenAccount;
use crate::kv::acct_key;
use crate::kv::acct_keys_unique;
use crate::kv::balances_of;
use crate::kv::lemma_balances_contains;
use crate::kv::lemma_balances_index;
use crate::kv::lemma_balances_push;
use crate::kv::lemma_balances_remove;
use crate::kv::lemma_balances_update;
use crate::kv::lemma_records_contains;
use crate::kv::lemma_records_index;
use crate::kv::lemma_records_push;
use crate::kv::lemma_records_remove;
use crate::kv::lemma_records_unique_push;
use crate::kv::lemma_unique_push;
use crate::kv::record_keys_unique;
use crate::kv::records_of;
use crate::model::LedgerView;
use crate::model::balance_or_zero;
use crate::model::exchange_spec;
use crate::model::make_spec;
use crate::model::mint_to_spec;
use crate::model::refund_spec;
use crate::state::Escrow;

verus! {

/// The accounts a Make request names: the maker signs, offers asset A held
/// in its own holding account, and demands asset B.
#[derive(Clone, Copy, Debug)]
pub struct MakeOffer {
    /// The identity that signed the request; only the maker itself may open
    /// an offer.
    pub signer: AccountId,
    pub maker: AccountId,
    pub token_mint_a: AccountId,
    pub token_mint_b: AccountId,
}

/// The accounts an Exchange request names: the taker signs; the record is
/// named by address; the maker and both mints are re-checked against the
/// record's own fields before anything moves.
#[derive(Clone, Copy, Debug)]
pub struct TakeOffer {
    /// The identity that signed the request.
    pub taker: AccountId,
    /// The offer's creator as the caller claims it; must match the record.
    pub maker: AccountId,
    /// The record's address.
    pub escrow: AccountId,
    pub token_mint_a: AccountId,
    pub token_mint_b: AccountId,
}

/// An account-based token ledger with open escrow records. Every operation
/// runs to completion or leaves the ledger untouched; destroying a record
/// is the only way to release its custody, so the record's existence is
/// itself the lock against double fulfillment.
pub struct Ledger {
    program: AccountId,
    accounts: Vec<TokenAccount>,
    records: Vec<RecordEntry>,
}

impl View for Ledger {
    type V = LedgerView;

    closed spec fn view(&self) -> LedgerView {
        LedgerView {
            program: self.program@,
            balances: balances_of(self.accounts@),
            records: records_of(self.records@),
        }
    }
}

impl Ledger {
    /// The representation invariant: no key is stored twice, so the entry
    /// lists mean exactly the maps the contracts speak of.
    pub closed spec fn wf(self) -> bool {
        acct_keys_unique(self.accounts@) && record_keys_unique(self.records@)
    }

    /// An empty ledger whose records derive under `program`.
    pub fn new(program: AccountId) -> (r: Ledger)
        ensures
            r.wf(),
            r@.program == program@,
            r@.balances == Map::<(Seq<u8>, Seq<u8>), u64>::empty(),
            r@.records == Map::<Seq<u8>, crate::state::EscrowData>::empty(),
    {
        Ledger { program, accounts: Vec::new(), records: Vec::new() }
    }

    /// The protocol's program identity, under which record addresses
    /// derive.
    pub fn program_id(&self) -> (r: AccountId)
        ensures
            r@ == self@.program,
    {
        self.program
    }

    /// The index of the token account keyed `(authority, mint)`, if any.
    fn find_account(&self, authority: &AccountId, mint: &AccountId) -> (r: Option<usize>)
        requires
            self.wf(),
        ensures
            match r {
                Some(i) => {
                    &&& i < self.accounts@.len()
                    &&& acct_key(self.accounts@[i as int]) == (authority@, mint@)
                    &&& self@.balances.contains_key((authority@, mint@))
                    &&& self@.balances[(authority@, mint@)] == self.accounts@[i as int].amount
                },
                None => !self@.balances.contains_key((authority@, mint@)),
            },
    {
        let n = self.accounts.len();
        let mut i: usize = 0;
        while i < n
            invariant
                n == self.accounts@.len(),
                i <= n,
                self.wf(),
                forall|j: int| 0 <= j < i ==> acct_key(#[trigger] self.accounts@[j]) != (
                    authority@,
                    mint@,
                ),
            decreases n - i,
        {
            let a = &self.accounts[i];
            if id_eq(&a.authority, authority) && id_eq(&a.mint, mint) {
                proof {
                    lemma_balances_index(self.accounts@, i as int);
                }
                return Some(i);
            }
            i += 1;
        }
        proof {
            lemma_balances_contains(self.accounts@, (authority@, mint@));
        }
        None
    }

    /// The index of the record stored at `addr`, if any.
    fn find_record(&self, addr: &AccountId) -> (r: Option<usize>)
        requires
            self.wf(),
        ensures
            match r {
                Some(i) => {
                    &&& i < self.records@.len()
                    &&& self.records@[i as int].addr@ == addr@
                    &&& self@.records.contains_key(addr@)
                    &&& self@.records[addr@] == self.records@[i as int].record@
                },
                None => !self@.records.contains_key(addr@),
            },
    {
        let n = self.records.len();
        let mut i: usize = 0;
        while i < n
            invariant
                n == self.records@.len(),
                i <= n,
                self.wf(),
                forall|j: int| 0 <= j < i ==> (#[trigger] self.records@[j]).addr@ != addr@,
            decreases n - i,
        {
            let e = &self.records[i];
            if id_eq(&e.addr, addr) {
                proof {
                    lemma_records_index(self.records@, i as int);
                }
                return Some(i);
            }
            i += 1;
        }
        proof {
            lemma_records_contains(self.records@, addr@);
        }
        None
    }

    /// The balance `authority` holds of `mint`, or `None` when no such
    /// account exists.
    pub fn balance_of(&self, authority: &AccountId, mint: &AccountId) -> (r: Option<u64>)
        requires
            self.wf(),
        ensures
            match r {
                Some(v) => self@.balances.contains_key((authority@, mint@)) && v
                    == self@.balances[(authority@, mint@)],
                None => !self@.balances.contains_key((authority@, mint@)),
            },
    {
        match self.find_account(authority, mint) {
            Some(i) => Some(self.accounts[i].amount),
            None => None,
        }
    }

    /// The record stored at `addr`, or `None` when it is absent: consumed,
    /// or never created.
    pub fn record_at(&self, addr: &AccountId) -> (r: Option<Escrow>)
        requires
            self.wf(),
        ensures
            match r {
                Some(e) => self@.records.contains_key(addr@) && self@.records[addr@] == e@,
                None => !self@.records.contains_key(addr@),
            },
    {
        match self.find_record(addr) {
            Some(i) => Some(self.records[i].record),
            None => None,
        }
    }

    /// Whether a record is stored at `addr`.
    pub fn has_record(&self, addr: &AccountId) -> (r: bool)
        requires
            self.wf(),
        ensures
            r == self@.records.contains_key(addr@),
    {
        self.find_record(addr).is_some()
    }

    /// Adds `amount` to the account keyed `(authority, mint)`, creating it
    /// when absent.
    fn credit_account(&mut self, authority: &AccountId, mint: &AccountId, amount: u64)
        requires
            old(self).wf(),
            balance_or_zero(old(self)@.balances, (authority@, mint@)) + amount <= u64::MAX,
        ensures
            final(self).wf(),
            final(self)@.program == old(self)@.program,
            final(self)@.records == old(self)@.records,
            final(self)@.balances == old(self)@.balances.insert(
                (authority@, mint@),
                (balance_or_zero(old(self)@.balances, (authority@, mint@)) + amount) as u64,
            ),
    {
        let found = self.find_account(authority, mint);
        match found {
            Some(i) => {
                let a = self.accounts[i];
                let updated = TokenAccount {
                    authority: a.authority,
                    mint: a.mint,
                    amount: a.amount + amount,
                };
                proof {
                    lemma_balances_update(self.accounts@, i as int, updated);
                }
                self.accounts.set(i, updated);
            },
            None => {
                let fresh = TokenAccount { authority: *authority, mint: *mint, amount };
                proof {
                    lemma_unique_push(self.accounts@, fresh);
                    lemma_balances_push(self.accounts@, fresh);
                }
                self.accounts.push(fresh);
            },
        }
    }

    /// Subtracts `amount` from the existing account keyed
    /// `(authority, mint)`.
    fn debit_account(&mut self, authority: &AccountId, mint: &AccountId, amount: u64)
        requires
            old(self).wf(),
            old(self)@.balances.contains_key((authority@, mint@)),
            old(self)@.balances[(authority@, mint@)] >= amount,
        ensures
            final(self).wf(),
            final(self)@.program == old(self)@.program,
            final(self)@.records == old(self)@.records,
            final(self)@.balances == old(self)@.balances.insert(
                (authority@, mint@),
                (old(self)@.balances[(authority@, mint@)] - amount) as u64,
            ),
    {
        let found = self.find_account(authority, mint);
        match found {
            Some(i) => {
                let a = self.accounts[i];
                let updated = TokenAccount {
                    authority: a.authority,
                    mint: a.mint,
                    amount: a.amount - amount,
                };
                proof {
                    lemma_balances_update(self.accounts@, i as int, updated);
                }
                self.accounts.set(i, updated);
            },
            None => {
                proof {
                    assert(false);
                }
            },
        }
    }

    /// Deletes the existing account keyed `(authority, mint)`, zeroing it:
    /// its key leaves the ledger.
    fn remove_account(&mut self, authority: &AccountId, mint: &AccountId)
        requires
            old(self).wf(),
            old(self)@.balances.contains_key((authority@, mint@)),
        ensures
            final(self).wf(),
            final(self)@.program == old(self)@.program,
            final(self)@.records == old(self)@.records,
            final(self)@.balances == old(self)@.balances.remove((authority@, mint@)),
    {
        let found = self.find_account(authority, mint);
        match found {
            Some(i) => {
                proof {
                    lemma_balances_remove(self.accounts@, i as int);
                }
                let _ = self.accounts.remove(i);
            },
            None => {
                proof {
                    assert(false);
                }
            },
        }
    }

    /// Deletes the existing record at `addr`.
    fn remove_record(&mut self, addr: &AccountId)
        requires
            old(self).wf(),
            old(self)@.records.contains_key(addr@),
        ensures
            final(self).wf(),
            final(self)@.program == old(self)@.program,
            final(self)@.balances == old(self)@.balances,
            final(self)@.records == old(self)@.records.remove(addr@),
    {
        let found = self.find_record(addr);
        match found {
            Some(i) => {
                proof {
                    lemma_records_remove(self.records@, i as int);
                }
                let _ = self.records.remove(i);
            },
            None => {
                proof {
                    assert(false);
                }
            },
        }
    }

    /// Issues `amount` of `mint` to `authority`, creating the holding
    /// account when absent. The issuance edge of the out-of-scope token
    /// subsystem: how parties come to hold assets at all.
    pub fn mint_to(&mut self, authority: &AccountId, mint: &AccountId, amount: u64) -> (r: Result<
        (),
        EscrowError,
    >)
        requires
            old(self).wf(),
        ensures
            final(self).wf(),
            ({
                let (s2, res) = mint_to_spec(old(self)@, authority@, mint@, amount);
                final(self)@ == s2 && r == res
            }),
    {
        let current: u64 = match self.find_account(authority, mint) {
            Some(i) => self.accounts[i].amount,
            None => 0,
        };
        if amount > u64::MAX - current {
            return Err(EscrowError::Overflow);
        }
        self.credit_account(authority, mint, amount);
        Ok(())
    }

    /// Moves `amount` of `mint_a` from the maker's holding account into the
    /// freshly created vault of the record at `record_addr`: the transfer
    /// leg of Make, run before the record is written, inside the same
    /// atomic unit.
    pub fn deposit(
        &mut self,
        maker: &AccountId,
        mint_a: &AccountId,
        record_addr: &AccountId,
        amount: u64,
    )
        requires
            old(self).wf(),
            old(self)@.balances.contains_key((maker@, mint_a@)),
            old(self)@.balances[(maker@, mint_a@)] >= amount,
            !old(self)@.balances.contains_key((record_addr@, mint_a@)),
        ensures
            final(self).wf(),
            final(self)@.program == old(self)@.program,
            final(self)@.records == old(self)@.records,
            final(self)@.balances == old(self)@.balances.insert(
                (maker@, mint_a@),
                (old(self)@.balances[(maker@, mint_a@)] - amount) as u64,
            ).insert((record_addr@, mint_a@), amount),
    {
        self.debit_account(maker, mint_a, amount);
        proof {
            assert(balance_or_zero(self@.balances, (record_addr@, mint_a@)) == 0);
        }
        self.credit_account(record_addr, mint_a, amount);
    }

    /// Writes the record of a newly opened offer at `record_addr`: the
    /// record-creation leg of Make, after the vault is funded.
    pub fn init_escrow(&mut self, record_addr: &AccountId, record: &Escrow)
        requires
            old(self).wf(),
            !old(self)@.records.contains_key(record_addr@),
        ensures
            final(self).wf(),
            final(self)@.program == old(self)@.program,
            final(self)@.balances == old(self)@.balances,
            final(self)@.records == old(self)@.records.insert(record_addr@, record@),
    {
        let entry = RecordEntry { addr: *record_addr, record: *record };
        proof {
            lemma_records_unique_push(self.records@, entry);
            lemma_records_push(self.records@, entry);
        }
        self.records.push(entry);
    }

    /// Pays the offer's price: transfers the record's `receive_amount` of
    /// asset B from the taker's holding account directly to the maker,
    /// never touching the vault.
    pub fn send_wanted_tokens_to_maker(&mut self, taker: &AccountId, record_addr: &AccountId)
        requires
            old(self).wf(),
            old(self)@.records.contains_key(record_addr@),
            ({
                let r = old(self)@.records[record_addr@];
                let paid = old(self)@.balances.insert(
                    (taker@, r.token_mint_b),
                    (old(self)@.balances[(taker@, r.token_mint_b)] - r.receive_amount) as u64,
                );
                &&& old(self)@.balances.contains_key((taker@, r.token_mint_b))
                &&& old(self)@.balances[(taker@, r.token_mint_b)] >= r.receive_amount
                &&& balance_or_zero(paid, (r.maker, r.token_mint_b)) + r.receive_amount
                    <= u64::MAX
            }),
        ensures
            final(self).wf(),
            final(self)@.program == old(self)@.program,
            final(self)@.records == old(self)@.records,
            ({
                let r = old(self)@.records[record_addr@];
                let paid = old(self)@.balances.insert(
                    (taker@, r.token_mint_b),
                    (old(self)@.balances[(taker@, r.token_mint_b)] - r.receive_amount) as u64,
                );
                final(self)@.balances == paid.insert(
                    (r.maker, r.token_mint_b),
                    (balance_or_zero(paid, (r.maker, r.token_mint_b)) + r.receive_amount) as u64,
                )
            }),
    {
        let rec = match self.find_record(record_addr) {
            Some(i) => self.records[i].record,
            None => unreached(),
        };
        self.debit_account(taker, &rec.token_mint_b, rec.receive_amount);
        self.credit_account(&rec.maker, &rec.token_mint_b, rec.receive_amount);
    }

    /// Releases custody: transfers the whole vault balance of the record's
    /// asset A to `destination`, closes the vault, and closes the record,
    /// all in one atomic unit, so custody can never be drained twice.
    /// Exchange releases to the taker; Refund releases to the maker.
    pub fn withdraw_and_close_vault(&mut self, destination: &AccountId, record_addr: &AccountId)
        requires
            old(self).wf(),
            old(self)@.records.contains_key(record_addr@),
            destination@ != record_addr@,
            ({
                let r = old(self)@.records[record_addr@];
                &&& old(self)@.balances.contains_key((record_addr@, r.token_mint_a))
                &&& balance_or_zero(old(self)@.balances, (destination@, r.token_mint_a)) + old(
                    self,
                )@.balances[(record_addr@, r.token_mint_a)] <= u64::MAX
            }),
        ensures
            final(self).wf(),
            final(self)@.program == old(self)@.program,
            final(self)@.records == old(self)@.records.remove(record_addr@),
            ({
                let r = old(self)@.records[record_addr@];
                let v = old(self)@.balances[(record_addr@, r.token_mint_a)];
                final(self)@.balances == old(self)@.balances.insert(
                    (destination@, r.token_mint_a),
                    (balance_or_zero(old(self)@.balances, (destination@, r.token_mint_a))
                        + v) as u64,
                ).remove((record_addr@, r.token_mint_a))
            }),
    {
        let rec = match self.find_record(record_addr) {
            Some(i) => self.records[i].record,
            None => unreached(),
        };
        let vault_amount: u64 = match self.find_account(record_addr, &rec.token_mint_a) {
            Some(i) => self.accounts[i].amount,
            None => unreached(),
        };
        self.credit_account(destination, &rec.token_mint_a, vault_amount);
        self.remove_account(record_addr, &rec.token_mint_a);
        self.remove_record(record_addr);
    }

    /// Opens an offer: derives the record address from `(maker, seed)`,
    /// moves `deposit` of asset A from the maker's holding account into the
    /// freshly created vault, and writes the record. On success the vault
    /// holds exactly `deposit` and the returned address is recomputable by
    /// anyone from `(maker, seed)`; on any error the ledger is unchanged.
    pub fn make(&mut self, offer: &MakeOffer, seed: u64, receive: u64, deposit: u64) -> (r:
        Result<AccountId, EscrowError>)
        requires
            old(self).wf(),
        ensures
            final(self).wf(),
            ({
                let (s2, res) = make_spec(
                    old(self)@,
                    offer.signer@,
                    offer.maker@,
                    offer.token_mint_a@,
                    offer.token_mint_b@,
                    seed,
                    receive,
                    deposit,
                );
                &&& final(self)@ == s2
                &&& (match r {
                    Ok(a) => res == Ok::<Seq<u8>, EscrowError>(a@),
                    Err(e) => res == Err::<Seq<u8>, EscrowError>(e),
                })
            }),
    {
        if !id_eq(&offer.signer, &offer.maker) {
            return Err(EscrowError::Unauthorized);
        }
        let derived = record_address(&offer.maker, seed, &self.program);
        let (addr, bump) = match derived {
            Some(p) => p,
            None => {
                return Err(EscrowError::DerivationFailed);
            },
        };
        match self.find_record(&addr) {
            Some(_) => {
                return Err(EscrowError::AlreadyExists);
            },
            None => {},
        }
        if id_eq(&addr, &offer.maker) {
            return Err(EscrowError::InvalidAccount);
        }
        match self.find_account(&addr, &offer.token_mint_a) {
            Some(_) => {
                return Err(EscrowError::AlreadyExists);
            },
            None => {},
        }
        let maker_balance: u64 = match self.find_account(&offer.maker, &offer.token_mint_a) {
            Some(i) => self.accounts[i].amount,
            None => {
                return Err(EscrowError::MissingAccount);
            },
        };
        if maker_balance < deposit {
            return Err(EscrowError::InsufficientBalance);
        }
        self.deposit(&offer.maker, &offer.token_mint_a, &addr, deposit);
        let record = Escrow {
            seed,
            maker: offer.maker,
            token_mint_a: offer.token_mint_a,
            token_mint_b: offer.token_mint_b,
            receive_amount: receive,
            bump,
        };
        self.init_escrow(&addr, &record);
        Ok(addr)
    }

    /// Fulfills an offer atomically: re-derives and validates the record,
    /// pays its price in asset B from the taker directly to the maker, and
    /// releases the whole vault to the taker, destroying the vault and the
    /// record. Either both legs land or, on any error, the ledger is
    /// unchanged.
    pub fn exchange(&mut self, offer: &TakeOffer) -> (r: Result<(), EscrowError>)
        requires
            old(self).wf(),
        ensures
            final(self).wf(),
            ({
                let (s2, res) = exchange_spec(
                    old(self)@,
                    offer.taker@,
                    offer.maker@,
                    offer.escrow@,
                    offer.token_mint_a@,
                    offer.token_mint_b@,
                );
                final(self)@ == s2 && r == res
            }),
    {
        let rec = match self.find_record(&offer.escrow) {
            Some(i) => self.records[i].record,
            None => {
                return Err(EscrowError::NotFound);
            },
        };
        let derivation_ok = match record_address(&rec.maker, rec.seed, &self.program) {
            Some(p) => id_eq(&p.0, &offer.escrow) && p.1 == rec.bump,
            None => false,
        };
        if !derivation_ok {
            return Err(EscrowError::DerivationMismatch);
        }
        if !id_eq(&offer.maker, &rec.maker) {
            return Err(EscrowError::MakerMismatch);
        }
        if !(id_eq(&offer.token_mint_a, &rec.token_mint_a) && id_eq(
            &offer.token_mint_b,
            &rec.token_mint_b,
        )) {
            return Err(EscrowError::MintMismatch);
        }
        if id_eq(&offer.taker, &offer.escrow) || id_eq(&rec.maker, &offer.escrow) {
            return Err(EscrowError::InvalidAccount);
        }
        let taker_b: u64 = match self.find_account(&offer.taker, &offer.token_mint_b) {
            Some(i) => self.accounts[i].amount,
            None => {
                return Err(EscrowError::MissingAccount);
            },
        };
        if taker_b < rec.receive_amount {
            return Err(EscrowError::InsufficientBalance);
        }
        let vault_amount: u64 = match self.find_account(&offer.escrow, &offer.token_mint_a) {
            Some(i) => self.accounts[i].amount,
            None => {
                return Err(EscrowError::MissingAccount);
            },
        };
        // What the maker's asset-B account holds once the taker's debit has
        // landed: the two coincide when the taker fulfills its own offer.
        let maker_b_current: u64 = if id_eq(&rec.maker, &offer.taker) {
            taker_b - rec.receive_amount
        } else {
            match self.find_account(&rec.maker, &offer.token_mint_b) {
                Some(i) => self.accounts[i].amount,
                None => 0,
            }
        };
        if rec.receive_amount > u64::MAX - maker_b_current {
            return Err(EscrowError::Overflow);
        }
        // What the taker's asset-A account holds once the first leg has
        // landed: the first leg touches it only when the two mints are one.
        let taker_a_current: u64 = if id_eq(&offer.token_mint_a, &offer.token_mint_b) {
            if id_eq(&rec.maker, &offer.taker) {
                taker_b
            } else {
                taker_b - rec.receive_amount
            }
        } else {
            match self.find_account(&offer.taker, &offer.token_mint_a) {
                Some(i) => self.accounts[i].amount,
                None => 0,
            }
        };
        if vault_amount > u64::MAX - taker_a_current {
            return Err(EscrowError::Overflow);
        }
        self.send_wanted_tokens_to_maker(&offer.taker, &offer.escrow);
        self.withdraw_and_close_vault(&offer.taker, &offer.escrow);
        Ok(())
    }

    /// Cancels an offer: only the record's own maker may reclaim custody.
    /// Returns the whole vault balance of asset A to the maker's holding
    /// account and destroys the vault and the record; asset B never moves.
    /// On any error the ledger is unchanged.
    pub fn refund(&mut self, signer: &AccountId, record_addr: &AccountId) -> (r: Result<
        (),
        EscrowError,
    >)
        requires
            old(self).wf(),
        ensures
            final(self).wf(),
            ({
                let (s2, res) = refund_spec(old(self)@, signer@, record_addr@);
                final(self)@ == s2 && r == res
            }),
    {
        let rec = match self.find_record(record_addr) {
            Some(i) => self.records[i].record,
            None => {
                return Err(EscrowError::NotFound);
            },
        };
        if !id_eq(signer, &rec.maker) {
            return Err(EscrowError::Unauthorized);
        }
        let derivation_ok = match record_address(&rec.maker, rec.seed, &self.program) {
            Some(p) => id_eq(&p.0, record_addr) && p.1 == rec.bump,
            None => false,
        };
        if !derivation_ok {
            return Err(EscrowError::DerivationMismatch);
        }
        if id_eq(&rec.maker, record_addr) {
            return Err(EscrowError::InvalidAccount);
        }
        let vault_amount: u64 = match self.find_account(record_addr, &rec.token_mint_a) {
            Some(i) => self.accounts[i].amount,
            None => {
                return Err(EscrowError::MissingAccount);
            },
        };
        let dest_current: u64 = match self.find_account(&rec.maker, &rec.token_mint_a) {
            Some(i) => self.accounts[i].amount,
            None => 0,
        };
        if vault_amount > u64::MAX - dest_current {
            return Err(EscrowError::Overflow);
        }
        self.withdraw_and_close_vault(&rec.maker, record_addr);
        Ok(())
    }
}

} // verus!
