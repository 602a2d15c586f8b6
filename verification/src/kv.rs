//! Storage entries of the ledger, and the view of each entry list as a
//! mathematical map. Record deletion and payout share one transaction, so a
//! keyed store with single-writer semantics is all the ledger needs; the
//! lemmas here carry every executable lookup, update, insertion and removal
//! over to the map the contracts speak of.

use vstd::prelude::*;
use crate::ids::AccountId;
use crate::model::AcctKey;
use crate::state::Escrow;
use crate::state::EscrowData;

verus! {

/// One token holding: `amount` of `mint`, controlled by `authority`. An
/// authority holds at most one account per mint.
#[derive(Clone, Copy, Debug)]
pub struct TokenAccount {
    pub authority: AccountId,
    pub mint: AccountId,
    pub amount: u64,
}

/// The key a token account is looked up by.
pub open spec fn acct_key(a: TokenAccount) -> AcctKey {
    (a.authority@, a.mint@)
}

/// One stored escrow record, at its derived address.
#[derive(Clone, Copy, Debug)]
pub struct RecordEntry {
    pub addr: AccountId,
    pub record: Escrow,
}

/// The balances map an account list stands for: later entries shadow
/// earlier ones, though a well-formed ledger never holds two entries with
/// one key.
pub open spec fn balances_of(s: Seq<TokenAccount>) -> Map<AcctKey, u64>
    decreases s.len(),
{
    if s.len() == 0 {
        Map::empty()
    } else {
        balances_of(s.drop_last()).insert(acct_key(s.last()), s.last().amount)
    }
}

/// The records map an entry list stands for.
pub open spec fn records_of(s: Seq<RecordEntry>) -> Map<Seq<u8>, EscrowData>
    decreases s.len(),
{
    if s.len() == 0 {
        Map::empty()
    } else {
        records_of(s.drop_last()).insert(s.last().addr@, s.last().record@)
    }
}

/// No two token accounts share a key.
pub open spec fn acct_keys_unique(s: Seq<TokenAccount>) -> bool {
    forall|i: int, j: int|
        0 <= i < j < s.len() ==> acct_key(#[trigger] s[i]) != acct_key(#[trigger] s[j])
}

/// No two records share an address.
pub open spec fn record_keys_unique(s: Seq<RecordEntry>) -> bool {
    forall|i: int, j: int| 0 <= i < j < s.len() ==> (#[trigger] s[i]).addr@ != (#[trigger] s[j]).addr@
}

/// A key is in the balances map exactly when some entry carries it.
pub proof fn lemma_balances_contains(s: Seq<TokenAccount>, k: AcctKey)
    ensures
        balances_of(s).contains_key(k) <==> exists|i: int|
            0 <= i < s.len() && acct_key(#[trigger] s[i]) == k,
    decreases s.len(),
{
    if s.len() > 0 {
        lemma_balances_contains(s.drop_last(), k);
        if acct_key(s.last()) == k {
            assert(acct_key(s[s.len() - 1]) == k);
        } else {
            if balances_of(s).contains_key(k) {
                let i = choose|i: int|
                    0 <= i < s.drop_last().len() && acct_key(#[trigger] s.drop_last()[i]) == k;
                assert(acct_key(s[i]) == k);
            }
            if exists|i: int| 0 <= i < s.len() && acct_key(#[trigger] s[i]) == k {
                let i = choose|i: int| 0 <= i < s.len() && acct_key(#[trigger] s[i]) == k;
                assert(i < s.len() - 1);
                assert(acct_key(s.drop_last()[i]) == k);
            }
        }
    }
}

/// Each entry of a uniquely keyed list is what the map holds at its key.
pub proof fn lemma_balances_index(s: Seq<TokenAccount>, i: int)
    requires
        acct_keys_unique(s),
        0 <= i < s.len(),
    ensures
        balances_of(s).contains_key(acct_key(s[i])),
        balances_of(s)[acct_key(s[i])] == s[i].amount,
    decreases s.len(),
{
    if i < s.len() - 1 {
        assert(acct_keys_unique(s.drop_last())) by {
            assert(forall|a: int| 0 <= a < s.len() - 1 ==> s.drop_last()[a] == s[a]);
        }
        lemma_balances_index(s.drop_last(), i);
        assert(s.drop_last()[i] == s[i]);
        assert(acct_key(s[i]) != acct_key(s[s.len() - 1]));
    }
}

/// Replacing an entry by one with the same key updates the map at that key.
pub proof fn lemma_balances_update(s: Seq<TokenAccount>, i: int, a: TokenAccount)
    requires
        acct_keys_unique(s),
        0 <= i < s.len(),
        acct_key(a) == acct_key(s[i]),
    ensures
        balances_of(s.update(i, a)) == balances_of(s).insert(acct_key(a), a.amount),
        acct_keys_unique(s.update(i, a)),
    decreases s.len(),
{
    let t = s.update(i, a);
    assert(forall|x: int| 0 <= x < s.len() && x != i ==> t[x] == s[x]);
    assert(t[i] == a);
    if i == s.len() - 1 {
        assert(t.drop_last() =~= s.drop_last());
        assert(balances_of(t) =~= balances_of(s).insert(acct_key(a), a.amount));
    } else {
        assert(acct_keys_unique(s.drop_last())) by {
            assert(forall|x: int| 0 <= x < s.len() - 1 ==> s.drop_last()[x] == s[x]);
        }
        assert(t.drop_last() =~= s.drop_last().update(i, a));
        lemma_balances_update(s.drop_last(), i, a);
        assert(acct_key(a) != acct_key(s.last()));
        assert(balances_of(t) =~= balances_of(s).insert(acct_key(a), a.amount));
    }
}

/// Appending an entry inserts its key into the map.
pub proof fn lemma_balances_push(s: Seq<TokenAccount>, a: TokenAccount)
    ensures
        balances_of(s.push(a)) == balances_of(s).insert(acct_key(a), a.amount),
{
    assert(s.push(a).drop_last() =~= s);
    assert(s.push(a).last() == a);
}

/// Appending an entry whose key is absent keeps the keys unique.
pub proof fn lemma_unique_push(s: Seq<TokenAccount>, a: TokenAccount)
    requires
        acct_keys_unique(s),
        !balances_of(s).contains_key(acct_key(a)),
    ensures
        acct_keys_unique(s.push(a)),
{
    lemma_balances_contains(s, acct_key(a));
    let t = s.push(a);
    assert forall|i: int, j: int| 0 <= i < j < t.len() implies acct_key(#[trigger] t[i])
        != acct_key(#[trigger] t[j]) by {
        if j == s.len() {
            assert(t[i] == s[i]);
            assert(acct_key(s[i]) != acct_key(a));
        } else {
            assert(t[i] == s[i] && t[j] == s[j]);
        }
    }
}

/// Deleting an entry of a uniquely keyed list removes its key from the map.
pub proof fn lemma_balances_remove(s: Seq<TokenAccount>, i: int)
    requires
        acct_keys_unique(s),
        0 <= i < s.len(),
    ensures
        balances_of(s.remove(i)) == balances_of(s).remove(acct_key(s[i])),
        acct_keys_unique(s.remove(i)),
    decreases s.len(),
{
    let t = s.remove(i);
    s.remove_ensures(i);
    assert forall|x: int, y: int| 0 <= x < y < t.len() implies acct_key(#[trigger] t[x])
        != acct_key(#[trigger] t[y]) by {
        let xs: int = if x < i { x } else { x + 1 };
        let ys: int = if y < i { y } else { y + 1 };
        assert(t[x] == s[xs] && t[y] == s[ys]);
    }
    if i == s.len() - 1 {
        assert(t =~= s.drop_last());
        lemma_balances_contains(s.drop_last(), acct_key(s[i]));
        assert(forall|x: int| 0 <= x < s.len() - 1 ==> s.drop_last()[x] == s[x]);
        assert(!balances_of(s.drop_last()).contains_key(acct_key(s[i])));
        assert(balances_of(t) =~= balances_of(s).remove(acct_key(s[i])));
    } else {
        assert(acct_keys_unique(s.drop_last())) by {
            assert(forall|x: int| 0 <= x < s.len() - 1 ==> s.drop_last()[x] == s[x]);
        }
        assert(t.drop_last() =~= s.drop_last().remove(i)) by {
            s.drop_last().remove_ensures(i);
        }
        assert(t.last() == s.last());
        lemma_balances_remove(s.drop_last(), i);
        assert(s.drop_last()[i] == s[i]);
        assert(acct_key(s[i]) != acct_key(s.last()));
        assert(balances_of(t) =~= balances_of(s).remove(acct_key(s[i])));
    }
}

/// A record address is in the records map exactly when some entry carries
/// it.
pub proof fn lemma_records_contains(s: Seq<RecordEntry>, k: Seq<u8>)
    ensures
        records_of(s).contains_key(k) <==> exists|i: int|
            0 <= i < s.len() && (#[trigger] s[i]).addr@ == k,
    decreases s.len(),
{
    if s.len() > 0 {
        lemma_records_contains(s.drop_last(), k);
        if s.last().addr@ == k {
            assert(s[s.len() - 1].addr@ == k);
        } else {
            if records_of(s).contains_key(k) {
                let i = choose|i: int|
                    0 <= i < s.drop_last().len() && (#[trigger] s.drop_last()[i]).addr@ == k;
                assert(s[i].addr@ == k);
            }
            if exists|i: int| 0 <= i < s.len() && (#[trigger] s[i]).addr@ == k {
                let i = choose|i: int| 0 <= i < s.len() && (#[trigger] s[i]).addr@ == k;
                assert(i < s.len() - 1);
                assert(s.drop_last()[i].addr@ == k);
            }
        }
    }
}

/// Each entry of a uniquely keyed list is what the records map holds at its
/// address.
pub proof fn lemma_records_index(s: Seq<RecordEntry>, i: int)
    requires
        record_keys_unique(s),
        0 <= i < s.len(),
    ensures
        records_of(s).contains_key(s[i].addr@),
        records_of(s)[s[i].addr@] == s[i].record@,
    decreases s.len(),
{
    if i < s.len() - 1 {
        assert(record_keys_unique(s.drop_last())) by {
            assert(forall|a: int| 0 <= a < s.len() - 1 ==> s.drop_last()[a] == s[a]);
        }
        lemma_records_index(s.drop_last(), i);
        assert(s.drop_last()[i] == s[i]);
        assert(s[i].addr@ != s[s.len() - 1].addr@);
    }
}

/// Appending a record inserts its address into the records map.
pub proof fn lemma_records_push(s: Seq<RecordEntry>, e: RecordEntry)
    ensures
        records_of(s.push(e)) == records_of(s).insert(e.addr@, e.record@),
{
    assert(s.push(e).drop_last() =~= s);
    assert(s.push(e).last() == e);
}

/// Appending a record at an absent address keeps the addresses unique.
pub proof fn lemma_records_unique_push(s: Seq<RecordEntry>, e: RecordEntry)
    requires
        record_keys_unique(s),
        !records_of(s).contains_key(e.addr@),
    ensures
        record_keys_unique(s.push(e)),
{
    lemma_records_contains(s, e.addr@);
    let t = s.push(e);
    assert forall|i: int, j: int| 0 <= i < j < t.len() implies (#[trigger] t[i]).addr@
        != (#[trigger] t[j]).addr@ by {
        if j == s.len() {
            assert(t[i] == s[i]);
            assert(s[i].addr@ != e.addr@);
        } else {
            assert(t[i] == s[i] && t[j] == s[j]);
        }
    }
}

/// Deleting a record of a uniquely keyed list removes its address from the
/// records map.
pub proof fn lemma_records_remove(s: Seq<RecordEntry>, i: int)
    requires
        record_keys_unique(s),
        0 <= i < s.len(),
    ensures
        records_of(s.remove(i)) == records_of(s).remove(s[i].addr@),
        record_keys_unique(s.remove(i)),
    decreases s.len(),
{
    let t = s.remove(i);
    s.remove_ensures(i);
    assert forall|x: int, y: int| 0 <= x < y < t.len() implies (#[trigger] t[x]).addr@
        != (#[trigger] t[y]).addr@ by {
        let xs: int = if x < i { x } else { x + 1 };
        let ys: int = if y < i { y } else { y + 1 };
        assert(t[x] == s[xs] && t[y] == s[ys]);
    }
    if i == s.len() - 1 {
        assert(t =~= s.drop_last());
        lemma_records_contains(s.drop_last(), s[i].addr@);
        assert(forall|x: int| 0 <= x < s.len() - 1 ==> s.drop_last()[x] == s[x]);
        assert(!records_of(s.drop_last()).contains_key(s[i].addr@));
        assert(records_of(t) =~= records_of(s).remove(s[i].addr@));
    } else {
        assert(record_keys_unique(s.drop_last())) by {
            assert(forall|x: int| 0 <= x < s.len() - 1 ==> s.drop_last()[x] == s[x]);
        }
        assert(t.drop_last() =~= s.drop_last().remove(i)) by {
            s.drop_last().remove_ensures(i);
        }
        assert(t.last() == s.last());
        lemma_records_remove(s.drop_last(), i);
        assert(s.drop_last()[i] == s[i]);
        assert(s[i].addr@ != s.last().addr@);
        assert(records_of(t) =~= records_of(s).remove(s[i].addr@));
    }
}

} // verus!
