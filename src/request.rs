use vstd::prelude::*;

use crate::callback::AccountMeta;
use crate::randomness::fulfilled;
use crate::wire::{
    copy_range, event_discriminator, is_request_event, AccountMetaPacked, VrfAccountData,
    SEEDS_BYTE_LEN, VRF_REQUEST_EVENT_DISCRIMINATOR,
};

verus! {

/// Why a randomness request is refused.
pub enum RequestError {
    /// The seed is empty or all zeros.
    SeedsZeroedOrEmpty,
}

pub open spec fn all_zero(s: Seq<u8>) -> bool {
    forall|i: int| 0 <= i < s.len() ==> #[trigger] s[i] == 0
}

pub open spec fn min(a: int, b: int) -> int {
    if a < b {
        a
    } else {
        b
    }
}

/// `new` is `old` with `value` written over it from position 0.
pub open spec fn written_from_start<T>(new: Seq<T>, old: Seq<T>, value: Seq<T>) -> bool {
    &&& new.len() == old.len()
    &&& forall|i: int| 0 <= i < value.len() ==> #[trigger] new[i] == value[i]
    &&& forall|i: int| value.len() <= i < old.len() ==> #[trigger] new[i] == old[i]
}

/// An account slot holds the descriptor of an instruction account.
pub open spec fn packs(slot: AccountMetaPacked, meta: AccountMeta) -> bool {
    slot.pubkey@ == meta.pubkey@ && slot.is_signer == meta.is_signer && slot.is_writable
        == meta.is_writable
}

/// Opens a request in a fresh record, whose result slot is not fulfilled and stays so: stores the seed (at most a seed slot's worth), the time,
/// the program to call back and the callback's accounts and data. An empty or all-zero seed is
/// refused and leaves the record as it was.
pub fn request_randomness(
    seeds: &[u8],
    vrf: &mut VrfAccountData,
    owner: &[u8],
    accounts: &Vec<AccountMeta>,
    ix_data: &[u8],
    now: i64,
) -> (r: Result<(), RequestError>)
    requires
        !fulfilled(old(vrf).result.result@),
        old(vrf).seeds@.len() == SEEDS_BYTE_LEN,
        old(vrf).callback.wf(),
        owner@.len() == 32,
        accounts@.len() <= 32,
        ix_data@.len() <= 1024,
    ensures
        r is Err <==> (seeds@.len() == 0 || all_zero(seeds@)),
        r is Err ==> *final(vrf) == *old(vrf),
        r is Ok ==> {
            let n = min(seeds@.len() as int, SEEDS_BYTE_LEN as int);
            &&& written_from_start(final(vrf).seeds@, old(vrf).seeds@, seeds@.subrange(0, n))
            &&& final(vrf).request_timestamp == now
            &&& final(vrf).result == old(vrf).result
            &&& !fulfilled(final(vrf).result.result@)
            &&& final(vrf).proof == old(vrf).proof
            &&& final(vrf).callback.program_id@ == owner@
            &&& final(vrf).callback.accounts_len == accounts@.len()
            &&& final(vrf).callback.accounts@.len() == old(vrf).callback.accounts@.len()
            &&& forall|i: int|
                0 <= i < accounts@.len() ==> packs(
                    #[trigger] final(vrf).callback.accounts@[i],
                    accounts@[i],
                )
            &&& forall|i: int|
                accounts@.len() <= i < old(vrf).callback.accounts@.len()
                    ==> #[trigger] final(vrf).callback.accounts@[i] == old(vrf).callback.accounts@[i]
            &&& final(vrf).callback.ix_data_len == ix_data@.len()
            &&& written_from_start(final(vrf).callback.ix_data@, old(vrf).callback.ix_data@, ix_data@)
            &&& final(vrf).callback.wf()
        },
{
    let mut zero = true;
    let mut i: usize = 0;
    while i < seeds.len()
        invariant
            i <= seeds@.len(),
            zero == (forall|j: int| 0 <= j < i ==> seeds@[j] == 0),
        decreases seeds@.len() - i,
    {
        if seeds[i] != 0 {
            zero = false;
        }
        i += 1;
    }
    if seeds.len() == 0 || zero {
        return Err(RequestError::SeedsZeroedOrEmpty);
    }
    let n: usize = if seeds.len() < SEEDS_BYTE_LEN { seeds.len() } else { SEEDS_BYTE_LEN };
    let ghost old_seeds = vrf.seeds@;
    let ghost v0 = *vrf;
    let mut i: usize = 0;
    while i < n
        invariant
            n <= seeds@.len(),
            n <= SEEDS_BYTE_LEN,
            i <= n,
            vrf.seeds@.len() == old_seeds.len(),
            vrf.result == v0.result,
            vrf.proof == v0.proof,
            vrf.request_timestamp == v0.request_timestamp,
            vrf.callback == v0.callback,
            old_seeds.len() == SEEDS_BYTE_LEN,
            forall|j: int| 0 <= j < i ==> #[trigger] vrf.seeds@[j] == seeds@[j],
            forall|j: int| i <= j < old_seeds.len() ==> #[trigger] vrf.seeds@[j] == old_seeds[j],
        decreases n - i,
    {
        vrf.seeds.set(i, seeds[i]);
        i += 1;
    }
    vrf.request_timestamp = now;
    vrf.callback.program_id = copy_range(owner, 0, 32);
    assert(owner@.subrange(0, 32) =~= owner@);
    vrf.callback.accounts_len = accounts.len() as u32;
    let ghost old_accounts = vrf.callback.accounts@;
    let ghost v1 = *vrf;
    let mut k: usize = 0;
    while k < accounts.len()
        invariant
            accounts@.len() <= 32,
            old_accounts.len() == 32,
            k <= accounts@.len(),
            vrf.callback.accounts@.len() == 32,
            vrf.seeds == v1.seeds,
            vrf.result == v1.result,
            vrf.proof == v1.proof,
            vrf.request_timestamp == v1.request_timestamp,
            vrf.callback.program_id == v1.callback.program_id,
            vrf.callback.accounts_len == v1.callback.accounts_len,
            vrf.callback.ix_data == v1.callback.ix_data,
            vrf.callback.ix_data_len == v1.callback.ix_data_len,
            forall|j: int| 0 <= j < k ==> packs(#[trigger] vrf.callback.accounts@[j], accounts@[j]),
            forall|j: int| k <= j < 32 ==> #[trigger] vrf.callback.accounts@[j] == old_accounts[j],
        decreases accounts@.len() - k,
    {
        let meta = &accounts[k];
        let pk = meta.pubkey.as_slice();
        assert(pk@.subrange(0, pk@.len() as int) =~= pk@);
        let slot = AccountMetaPacked {
            pubkey: copy_range(pk, 0, pk.len()),
            is_signer: meta.is_signer,
            is_writable: meta.is_writable,
        };
        vrf.callback.accounts.set(k, slot);
        k += 1;
    }
    vrf.callback.ix_data_len = ix_data.len() as u32;
    let ghost old_data = vrf.callback.ix_data@;
    let ghost v2 = *vrf;
    let mut d: usize = 0;
    while d < ix_data.len()
        invariant
            ix_data@.len() <= 1024,
            old_data.len() == 1024,
            d <= ix_data@.len(),
            vrf.callback.ix_data@.len() == 1024,
            vrf.seeds == v2.seeds,
            vrf.result == v2.result,
            vrf.proof == v2.proof,
            vrf.request_timestamp == v2.request_timestamp,
            vrf.callback.program_id == v2.callback.program_id,
            vrf.callback.accounts_len == v2.callback.accounts_len,
            vrf.callback.accounts == v2.callback.accounts,
            vrf.callback.ix_data_len == v2.callback.ix_data_len,
            forall|j: int| 0 <= j < d ==> #[trigger] vrf.callback.ix_data@[j] == ix_data@[j],
            forall|j: int| d <= j < 1024 ==> #[trigger] vrf.callback.ix_data@[j] == old_data[j],
        decreases ix_data@.len() - d,
    {
        vrf.callback.ix_data.set(d, ix_data[d]);
        d += 1;
    }
    Ok(())
}

/// The payload of the event that announces a request: the event's discriminator, then the
/// record's address.
pub fn encode_request_event(vrf: &[u8]) -> (r: Vec<u8>)
    requires
        vrf@.len() == 32,
    ensures
        r@ == event_discriminator() + vrf@,
{
    let disc = VRF_REQUEST_EVENT_DISCRIMINATOR;
    let mut r: Vec<u8> = Vec::new();
    let mut i: usize = 0;
    while i < 8
        invariant
            i <= 8,
            disc@ == event_discriminator(),
            r@ == disc@.subrange(0, i as int),
        decreases 8 - i,
    {
        r.push(disc[i]);
        assert(disc@.subrange(0, i + 1) == disc@.subrange(0, i as int).push(disc@[i as int]));
        i += 1;
    }
    let mut j: usize = 0;
    while j < 32
        invariant
            j <= 32,
            vrf@.len() == 32,
            r@ == event_discriminator() + vrf@.subrange(0, j as int),
        decreases 32 - j,
    {
        r.push(vrf[j]);
        assert(vrf@.subrange(0, j + 1) == vrf@.subrange(0, j as int).push(vrf@[j as int]));
        assert(r@ =~= event_discriminator() + vrf@.subrange(0, j + 1));
        j += 1;
    }
    assert(vrf@.subrange(0, 32) =~= vrf@);
    r
}

/// Reading back an announced request gives the address that was announced.
pub proof fn lemma_request_event_round_trip(vrf: Seq<u8>)
    requires
        vrf.len() == 32,
    ensures
        is_request_event(event_discriminator() + vrf),
        (event_discriminator() + vrf).len() >= 40,
        (event_discriminator() + vrf).subrange(8, 40) == vrf,
{
    assert((event_discriminator() + vrf).subrange(0, 8) =~= event_discriminator());
    assert((event_discriminator() + vrf).subrange(8, 40) =~= vrf);
}

} // verus!
