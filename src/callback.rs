use vstd::prelude::*;

use crate::wire::{
    bytes_at, copy_range, sentinel, CallbackPacked, RESULT_BYTE_LEN, VRF_RESULT_DISCRIMINATOR,
};

verus! {

/// Where a callback conventionally expects the randomness: right after its 8-byte
/// instruction discriminator.
pub const EXPECTED_RESULT_OFFSET: usize = 8;

/// An account of an executable instruction.
pub struct AccountMeta {
    pub pubkey: Vec<u8>,
    pub is_signer: bool,
    pub is_writable: bool,
}

/// An executable instruction.
pub struct Instruction {
    pub program_id: Vec<u8>,
    pub accounts: Vec<AccountMeta>,
    pub data: Vec<u8>,
}

/// A callback completed with the randomness, and where the randomness went.
pub struct CallbackInstruction {
    pub instruction: Instruction,
    pub offset: usize,
    /// The randomness is not at the conventional offset: worth a warning, not an error.
    pub misplaced: bool,
}

/// Why a callback template cannot be completed.
pub enum CallbackError {
    /// The instruction data holds no sentinel to overwrite.
    PlaceholderNotFound,
}

pub open spec fn occurs_at(data: Seq<u8>, p: Seq<u8>, k: int) -> bool {
    0 <= k && k + p.len() <= data.len() && data.subrange(k, k + p.len()) == p
}

/// `k` is the first position at which `p` occurs in `data`.
pub open spec fn first_occurrence(data: Seq<u8>, p: Seq<u8>, k: int) -> bool {
    occurs_at(data, p, k) && forall|m: int| 0 <= m < k ==> !#[trigger] occurs_at(data, p, m)
}

/// `data` with `value` written over it at `k`.
pub open spec fn overwrite(data: Seq<u8>, k: int, value: Seq<u8>) -> Seq<u8> {
    data.subrange(0, k) + value + data.subrange(k + value.len(), data.len() as int)
}

/// The instruction data in use in a template.
pub open spec fn template_data(cb: &CallbackPacked) -> Seq<u8> {
    cb.ix_data@.subrange(0, cb.ix_data_len as int)
}

/// Each account in use, with its address and both flags as the template has them.
pub open spec fn accounts_copied(cb: &CallbackPacked, accounts: Seq<AccountMeta>) -> bool {
    &&& accounts.len() == cb.accounts_len
    &&& forall|i: int|
        0 <= i < accounts.len() ==> {
            &&& #[trigger] accounts[i].pubkey@ == cb.accounts@[i].pubkey@
            &&& accounts[i].is_signer == cb.accounts@[i].is_signer
            &&& accounts[i].is_writable == cb.accounts@[i].is_writable
        }
}

/// The first position of the sentinel in `data`, if any.
fn find_sentinel(data: &Vec<u8>) -> (r: Option<usize>)
    ensures
        match r {
            Some(k) => first_occurrence(data@, sentinel(), k as int),
            None => forall|k: int| !#[trigger] occurs_at(data@, sentinel(), k),
        },
{
    let s = VRF_RESULT_DISCRIMINATOR;
    if data.len() < RESULT_BYTE_LEN {
        return None;
    }
    let last = data.len() - RESULT_BYTE_LEN;
    let mut k: usize = 0;
    while k <= last
        invariant
            last + 32 == data@.len(),
            data@.len() <= usize::MAX,
            k <= last + 1,
            s@ == sentinel(),
            forall|m: int| 0 <= m < k ==> !#[trigger] occurs_at(data@, sentinel(), m),
        decreases last + 1 - k,
    {
        if bytes_at(data.as_slice(), k, &s) {
            return Some(k);
        }
        k += 1;
    }
    None
}

/// Completes a callback template: the first occurrence of the sentinel in the data in use is
/// overwritten with `random`, the accounts in use are kept one for one with their flags, and
/// the target is the template's program.
pub fn build_callback_instruction(cb: &CallbackPacked, random: &[u8; 32]) -> (r: Result<
    CallbackInstruction,
    CallbackError,
>)
    requires
        cb.wf(),
    ensures
        match r {
            Ok(c) => {
                &&& first_occurrence(template_data(cb), sentinel(), c.offset as int)
                &&& c.instruction.data@ == overwrite(template_data(cb), c.offset as int, random@)
                &&& c.instruction.program_id@ == cb.program_id@
                &&& accounts_copied(cb, c.instruction.accounts@)
                &&& c.misplaced == (c.offset != EXPECTED_RESULT_OFFSET)
            },
            Err(CallbackError::PlaceholderNotFound) => forall|k: int|
                !#[trigger] occurs_at(template_data(cb), sentinel(), k),
        },
{
    let mut data = copy_range(cb.ix_data.as_slice(), 0, cb.ix_data_len as usize);
    let offset = match find_sentinel(&data) {
        Some(k) => k,
        None => {
            return Err(CallbackError::PlaceholderNotFound);
        },
    };
    let ghost before = data@;
    let dl = data.len();
    assert(dl == before.len());
    let mut j: usize = 0;
    while j < 32
        invariant
            offset + 32 <= before.len(),
            before.len() <= usize::MAX,
            data@.len() == before.len(),
            j <= 32,
            forall|i: int| 0 <= i < offset ==> data@[i] == before[i],
            forall|i: int| offset + 32 <= i < before.len() ==> data@[i] == before[i],
            forall|i: int| 0 <= i < j ==> data@[offset + i] == random@[i],
        decreases 32 - j,
    {
        data.set(offset + j, random[j]);
        j += 1;
    }
    assert(data@ =~= overwrite(before, offset as int, random@));
    let mut accounts: Vec<AccountMeta> = Vec::new();
    let n = cb.accounts_len as usize;
    let mut i: usize = 0;
    while i < n
        invariant
            cb.wf(),
            n == cb.accounts_len,
            i <= n,
            accounts@.len() == i,
            forall|a: int|
                0 <= a < i ==> {
                    &&& #[trigger] accounts@[a].pubkey@ == cb.accounts@[a].pubkey@
                    &&& accounts@[a].is_signer == cb.accounts@[a].is_signer
                    &&& accounts@[a].is_writable == cb.accounts@[a].is_writable
                },
        decreases n - i,
    {
        let src = &cb.accounts[i];
        let pk = src.pubkey.as_slice();
        assert(pk@.subrange(0, pk@.len() as int) =~= pk@);
        accounts.push(
            AccountMeta {
                pubkey: copy_range(pk, 0, pk.len()),
                is_signer: src.is_signer,
                is_writable: src.is_writable,
            },
        );
        assert(accounts@[i as int].pubkey@ == cb.accounts@[i as int].pubkey@);
        i += 1;
    }
    assert(before == template_data(cb));
    assert(accounts_copied(cb, accounts@));
    let pid = cb.program_id.as_slice();
    assert(pid@.subrange(0, pid@.len() as int) =~= pid@);
    let instruction = Instruction { program_id: copy_range(pid, 0, pid.len()), accounts, data };
    Ok(CallbackInstruction { instruction, offset, misplaced: offset != EXPECTED_RESULT_OFFSET })
}

} // verus!
