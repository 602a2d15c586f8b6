//! The persisted layout of an escrow record: an eight-byte discriminator,
//! then seed, maker, both asset mints, the demanded amount, and the
//! derivation proof byte. Decoding accepts exactly the encodings and
//! recovers every field.

use vstd::prelude::*;
use vstd::bytes::lemma_auto_spec_u64_to_from_le_bytes;
use vstd::bytes::spec_u64_to_le_bytes;
use vstd::bytes::u64_from_le_bytes;
use vstd::bytes::u64_to_le_bytes;
use vstd::slice::slice_index_get;
use vstd::slice::slice_subrange;
use crate::ids::AccountId;
use crate::state::Escrow;
use crate::state::EscrowData;

verus! {

/// The eight bytes that open every persisted record: the account-name hash
/// prefix that tells a record from any other account payload.
pub open spec fn discriminator() -> Seq<u8> {
    seq![31u8, 213u8, 123u8, 187u8, 186u8, 22u8, 218u8, 155u8]
}

/// An identity as persisted: exactly 32 bytes each.
pub open spec fn wf_record_data(e: EscrowData) -> bool {
    &&& e.maker.len() == 32
    &&& e.token_mint_a.len() == 32
    &&& e.token_mint_b.len() == 32
}

/// The persisted bytes of a record: discriminator, seed (8 bytes, little
/// endian), maker (32), asset mint A (32), asset mint B (32), demanded
/// amount (8, little endian), proof byte (1).
pub open spec fn record_bytes(e: EscrowData) -> Seq<u8> {
    discriminator() + spec_u64_to_le_bytes(e.seed) + e.maker + e.token_mint_a + e.token_mint_b
        + spec_u64_to_le_bytes(e.receive_amount) + seq![e.bump]
}

/// A well-formed record persists to exactly 121 bytes.
pub proof fn lemma_record_bytes_len(e: EscrowData)
    requires
        wf_record_data(e),
    ensures
        record_bytes(e).len() == 121,
{
    lemma_auto_spec_u64_to_from_le_bytes();
}

/// Two well-formed records with one persisted form are one record: the
/// layout loses nothing.
pub proof fn lemma_record_bytes_injective(e1: EscrowData, e2: EscrowData)
    requires
        wf_record_data(e1),
        wf_record_data(e2),
        record_bytes(e1) == record_bytes(e2),
    ensures
        e1 == e2,
{
    lemma_auto_spec_u64_to_from_le_bytes();
    let b1 = record_bytes(e1);
    let b2 = record_bytes(e2);
    assert(spec_u64_to_le_bytes(e1.seed) =~= b1.subrange(8, 16));
    assert(spec_u64_to_le_bytes(e2.seed) =~= b2.subrange(8, 16));
    assert(e1.maker =~= b1.subrange(16, 48));
    assert(e2.maker =~= b2.subrange(16, 48));
    assert(e1.token_mint_a =~= b1.subrange(48, 80));
    assert(e2.token_mint_a =~= b2.subrange(48, 80));
    assert(e1.token_mint_b =~= b1.subrange(80, 112));
    assert(e2.token_mint_b =~= b2.subrange(80, 112));
    assert(spec_u64_to_le_bytes(e1.receive_amount) =~= b1.subrange(112, 120));
    assert(spec_u64_to_le_bytes(e2.receive_amount) =~= b2.subrange(112, 120));
    assert(e1.bump == b1[120]);
    assert(e2.bump == b2[120]);
}

/// Appends an identity's 32 bytes.
fn push_id(out: &mut Vec<u8>, id: &AccountId)
    ensures
        final(out)@ == old(out)@ + id@,
{
    let mut i: usize = 0;
    while i < 32
        invariant
            i <= 32,
            out@ == old(out)@ + id@.subrange(0, i as int),
        decreases 32 - i,
    {
        let b = id.bytes[i];
        proof {
            assert(id@.subrange(0, i + 1) =~= id@.subrange(0, i as int).push(id@[i as int]));
        }
        out.push(b);
        i += 1;
    }
    proof {
        assert(id@.subrange(0, 32) =~= id@);
    }
}

impl Escrow {
    /// The record's persisted bytes.
    pub fn to_bytes(&self) -> (out: Vec<u8>)
        ensures
            out@ == record_bytes(self@),
            out@.len() == 121,
    {
        let mut out: Vec<u8> = Vec::new();
        let disc: [u8; 8] = [31, 213, 123, 187, 186, 22, 218, 155];
        proof {
            assert(disc@ =~= discriminator());
        }
        out.extend_from_slice(disc.as_slice());
        proof {
            assert(out@ =~= discriminator());
        }
        let mut seed_bytes = u64_to_le_bytes(self.seed);
        out.append(&mut seed_bytes);
        push_id(&mut out, &self.maker);
        push_id(&mut out, &self.token_mint_a);
        push_id(&mut out, &self.token_mint_b);
        let mut receive_bytes = u64_to_le_bytes(self.receive_amount);
        out.append(&mut receive_bytes);
        out.push(self.bump);
        proof {
            lemma_auto_spec_u64_to_from_le_bytes();
            assert(out@ =~= record_bytes(self@));
        }
        out
    }

    /// Decodes a persisted record. Returns `Some` exactly when the input
    /// has a record's length and opens with the discriminator; what comes
    /// back then persists to exactly the given bytes.
    pub fn from_bytes(bytes: &[u8]) -> (r: Option<Escrow>)
        ensures
            r is Some <==> (bytes@.len() == 121 && bytes@.subrange(0, 8) == discriminator()),
            (match r {
                Some(e) => bytes@ == record_bytes(e@),
                None => true,
            }),
    {
        if bytes.len() != 121 {
            return None;
        }
        let disc: [u8; 8] = [31, 213, 123, 187, 186, 22, 218, 155];
        proof {
            assert(disc@ =~= discriminator());
        }
        let mut i: usize = 0;
        while i < 8
            invariant
                i <= 8,
                bytes@.len() == 121,
                disc@ == discriminator(),
                forall|j: int| 0 <= j < i ==> bytes@[j] == discriminator()[j],
            decreases 8 - i,
        {
            if *slice_index_get(bytes, i) != disc[i] {
                proof {
                    assert(bytes@.subrange(0, 8) != discriminator()) by {
                        assert(bytes@.subrange(0, 8)[i as int] != discriminator()[i as int]);
                    }
                }
                return None;
            }
            i += 1;
        }
        proof {
            assert(bytes@.subrange(0, 8) =~= discriminator());
        }
        let seed = u64_from_le_bytes(slice_subrange(bytes, 8, 16));
        let maker = read_id(bytes, 16);
        let token_mint_a = read_id(bytes, 48);
        let token_mint_b = read_id(bytes, 80);
        let receive_amount = u64_from_le_bytes(slice_subrange(bytes, 112, 120));
        let bump = *slice_index_get(bytes, 120);
        let record = Escrow { seed, maker, token_mint_a, token_mint_b, receive_amount, bump };
        proof {
            lemma_auto_spec_u64_to_from_le_bytes();
            assert(bytes@ =~= record_bytes(record@));
        }
        Some(record)
    }
}

/// Reads the 32-byte identity stored at `start`.
fn read_id(bytes: &[u8], start: usize) -> (r: AccountId)
    requires
        start + 32 <= bytes@.len(),
    ensures
        r@ == bytes@.subrange(start as int, start + 32),
{
    let n = bytes.len();
    let mut arr: [u8; 32] = [0; 32];
    let mut i: usize = 0;
    while i < 32
        invariant
            i <= 32,
            n == bytes@.len(),
            start + 32 <= n,
            forall|j: int| 0 <= j < i ==> arr@[j] == bytes@[start + j],
        decreases 32 - i,
    {
        arr[i] = *slice_index_get(bytes, start + i);
        i += 1;
    }
    proof {
        assert(arr@ =~= bytes@.subrange(start as int, start + 32));
    }
    AccountId::new(arr)
}

} // verus!
