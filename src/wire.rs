use vstd::prelude::*;

verus! {

/// Length in bytes of a randomness result.
pub const RESULT_BYTE_LEN: usize = 32;

/// Length in bytes of a proof slot.
pub const PROOF_BYTE_LEN: usize = 80;

/// Length in bytes of a seed slot.
pub const SEEDS_BYTE_LEN: usize = 32;

/// Length in bytes of an address.
pub const PUBKEY_LEN: usize = 32;

/// Number of account slots in a callback template.
pub const MAX_CALLBACK_ACCOUNTS: usize = 32;

/// Size of the instruction-data buffer of a callback template.
pub const IX_DATA_CAPACITY: usize = 1024;

/// Size of one packed account descriptor: address, signer flag, writable flag.
pub const ACCOUNT_META_LEN: usize = 34;

/// Offsets of the record's fields, counted after its discriminator.
pub const RESULT_AT: usize = 0;
pub const PROOF_AT: usize = 32;
pub const SEEDS_AT: usize = 112;
pub const TIMESTAMP_AT: usize = 144;
pub const CB_PROGRAM_AT: usize = 152;
pub const CB_ACCOUNTS_AT: usize = 184;
pub const CB_ACCOUNTS_LEN_AT: usize = 1272;
pub const CB_IX_DATA_AT: usize = 1276;
pub const CB_IX_DATA_LEN_AT: usize = 2300;

/// Size of a request record after its discriminator, the reserved tail included.
pub const RECORD_LEN: usize = 3328;

/// Size of a request account: discriminator and record.
pub const ACCOUNT_SIZE: usize = 3336;

/// The value a result slot holds until the request is fulfilled.
pub const VRF_RESULT_DISCRIMINATOR: [u8; 32] = [
    169, 181, 96, 37, 231, 213, 250, 114, 103, 201, 179, 141, 92, 38, 30, 87, 115, 210, 50, 29,
    136, 193, 41, 211, 45, 205, 112, 191, 205, 195, 2, 105,
];

/// Type discriminator of a request account.
pub const VRF_ACCOUNT_DISCRIMINATOR: [u8; 8] = [101, 35, 62, 239, 103, 151, 6, 18];

/// Type discriminator of the randomness-request event.
pub const VRF_REQUEST_EVENT_DISCRIMINATOR: [u8; 8] = [165, 136, 58, 240, 241, 40, 12, 65];

pub open spec fn sentinel() -> Seq<u8> {
    VRF_RESULT_DISCRIMINATOR@
}

pub open spec fn account_discriminator() -> Seq<u8> {
    VRF_ACCOUNT_DISCRIMINATOR@
}

pub open spec fn event_discriminator() -> Seq<u8> {
    VRF_REQUEST_EVENT_DISCRIMINATOR@
}

/// One account of a callback template.
pub struct AccountMetaPacked {
    pub pubkey: Vec<u8>,
    pub is_signer: bool,
    pub is_writable: bool,
}

/// A stored callback instruction: all account slots and the whole data buffer, with the number
/// of each that is in use.
pub struct CallbackPacked {
    pub program_id: Vec<u8>,
    pub accounts: Vec<AccountMetaPacked>,
    pub accounts_len: u32,
    pub ix_data: Vec<u8>,
    pub ix_data_len: u32,
}

/// A randomness result slot.
#[derive(Clone, Copy)]
pub struct VrfResult {
    pub result: [u8; 32],
}

/// A randomness request record.
pub struct VrfAccountData {
    pub result: VrfResult,
    pub proof: Vec<u8>,
    pub seeds: Vec<u8>,
    pub request_timestamp: i64,
    pub callback: CallbackPacked,
}

/// The payload of a randomness-request event: the address of the request record.
pub struct VrfRequestRandomness {
    pub vrf: Vec<u8>,
}

impl CallbackPacked {
    /// The counts are within the slots, and the slots have their fixed sizes.
    pub open spec fn wf(&self) -> bool {
        &&& self.program_id@.len() == PUBKEY_LEN
        &&& self.accounts@.len() == MAX_CALLBACK_ACCOUNTS
        &&& self.ix_data@.len() == IX_DATA_CAPACITY
        &&& self.accounts_len as int <= MAX_CALLBACK_ACCOUNTS
        &&& self.ix_data_len as int <= IX_DATA_CAPACITY
    }
}

/// Little-endian value of four bytes at `at`.
pub open spec fn le_u32(b: Seq<u8>, at: int) -> u32 {
    (b[at] as int + b[at + 1] as int * 0x100 + b[at + 2] as int * 0x1_0000 + b[at + 3] as int
        * 0x100_0000) as u32
}

/// Little-endian value of eight bytes at `at`, read as two's complement.
pub open spec fn le_i64(b: Seq<u8>, at: int) -> i64 {
    (b[at] as int + b[at + 1] as int * 0x100 + b[at + 2] as int * 0x1_0000 + b[at + 3] as int
        * 0x100_0000 + b[at + 4] as int * 0x1_0000_0000 + b[at + 5] as int * 0x100_0000_0000
        + b[at + 6] as int * 0x1_0000_0000_0000 + b[at + 7] as int * 0x100_0000_0000_0000) as u64
        as i64
}

/// The record at offset 8 of an account's bytes: each field as the layout places it.
pub open spec fn record_fields(b: Seq<u8>, d: VrfAccountData) -> bool {
    let r = 8int;
    &&& d.result.result@ == b.subrange(r + RESULT_AT, r + PROOF_AT)
    &&& d.proof@ == b.subrange(r + PROOF_AT, r + SEEDS_AT)
    &&& d.seeds@ == b.subrange(r + SEEDS_AT, r + TIMESTAMP_AT)
    &&& d.request_timestamp == le_i64(b, r + TIMESTAMP_AT)
    &&& d.callback.program_id@ == b.subrange(r + CB_PROGRAM_AT, r + CB_ACCOUNTS_AT)
    &&& d.callback.accounts@.len() == MAX_CALLBACK_ACCOUNTS
    &&& forall|i: int|
        0 <= i < MAX_CALLBACK_ACCOUNTS ==> account_at(b, r + CB_ACCOUNTS_AT + i * 34, #[trigger] d.callback.accounts@[i])
    &&& d.callback.accounts_len == le_u32(b, r + CB_ACCOUNTS_LEN_AT)
    &&& d.callback.ix_data@ == b.subrange(r + CB_IX_DATA_AT, r + CB_IX_DATA_LEN_AT)
    &&& d.callback.ix_data_len == le_u32(b, r + CB_IX_DATA_LEN_AT)
}

/// The account descriptor packed at `at`; a flag byte is true when it is not zero.
pub open spec fn account_at(b: Seq<u8>, at: int, a: AccountMetaPacked) -> bool {
    &&& a.pubkey@ == b.subrange(at, at + 32)
    &&& a.is_signer == (b[at + 32] != 0)
    &&& a.is_writable == (b[at + 33] != 0)
}

/// Why an account's bytes are not a request record.
pub enum AccountError {
    /// Fewer bytes than a request account holds.
    TooShort,
    /// The leading bytes are not the request record's type discriminator.
    InvalidDiscriminator,
    /// The callback's account count or data length exceeds its slots.
    InvalidCallback,
}

/// Whether `b[at..at + p.len()]` equals `p`.
pub fn bytes_at(b: &[u8], at: usize, p: &[u8]) -> (r: bool)
    ensures
        r == (at + p@.len() <= b@.len() && b@.subrange(at as int, at + p@.len()) == p@),
{
    if at > b.len() || p.len() > b.len() - at {
        return false;
    }
    let mut i: usize = 0;
    while i < p.len()
        invariant
            at + p@.len() <= b@.len(),
            b@.len() <= usize::MAX,
            i <= p@.len(),
            forall|j: int| 0 <= j < i ==> b@[at + j] == p@[j],
        decreases p@.len() - i,
    {
        if b[at + i] != p[i] {
            assert(b@.subrange(at as int, at + p@.len())[i as int] != p@[i as int]);
            return false;
        }
        i += 1;
    }
    assert(b@.subrange(at as int, at + p@.len()) =~= p@);
    true
}

/// A copy of `b[from..to]`.
pub fn copy_range(b: &[u8], from: usize, to: usize) -> (r: Vec<u8>)
    requires
        from <= to <= b@.len(),
    ensures
        r@ == b@.subrange(from as int, to as int),
{
    let mut r: Vec<u8> = Vec::new();
    let mut i: usize = from;
    while i < to
        invariant
            from <= i <= to <= b@.len(),
            r@ == b@.subrange(from as int, i as int),
        decreases to - i,
    {
        r.push(b[i]);
        assert(b@.subrange(from as int, i + 1) == b@.subrange(from as int, i as int).push(b@[i as int]));
        i += 1;
    }
    r
}

fn read_u32_le(b: &[u8], at: usize) -> (r: u32)
    requires
        at + 4 <= b@.len(),
    ensures
        r == le_u32(b@, at as int),
{
    b[at] as u32 + b[at + 1] as u32 * 0x100 + b[at + 2] as u32 * 0x1_0000 + b[at + 3] as u32
        * 0x100_0000
}

fn read_i64_le(b: &[u8], at: usize) -> (r: i64)
    requires
        at + 8 <= b@.len(),
    ensures
        r == le_i64(b@, at as int),
{
    let v: u64 = b[at] as u64 + b[at + 1] as u64 * 0x100 + b[at + 2] as u64 * 0x1_0000 + b[at
        + 3] as u64 * 0x100_0000 + b[at + 4] as u64 * 0x1_0000_0000 + b[at + 5] as u64
        * 0x100_0000_0000 + b[at + 6] as u64 * 0x1_0000_0000_0000 + b[at + 7] as u64
        * 0x100_0000_0000_0000;
    v as i64
}

fn read_result(b: &[u8], at: usize) -> (r: [u8; 32])
    requires
        at + 32 <= b@.len(),
    ensures
        r@ == b@.subrange(at as int, at + 32),
{
    let mut r: [u8; 32] = [0u8; 32];
    let n = b.len();
    assert(n == b@.len());
    let mut i: usize = 0;
    while i < 32
        invariant
            at + 32 <= b@.len(),
            b@.len() <= usize::MAX,
            i <= 32,
            r@.len() == 32,
            forall|j: int| 0 <= j < i ==> r@[j] == b@[at + j],
        decreases 32 - i,
    {
        r[i] = b[at + i];
        i += 1;
    }
    assert(r@ =~= b@.subrange(at as int, at + 32));
    r
}

fn read_accounts(b: &[u8], at: usize) -> (r: Vec<AccountMetaPacked>)
    requires
        at + 32 * 34 <= b@.len(),
    ensures
        r@.len() == MAX_CALLBACK_ACCOUNTS,
        forall|i: int| 0 <= i < MAX_CALLBACK_ACCOUNTS ==> account_at(b@, at + i * 34, #[trigger] r@[i]),
{
    let mut r: Vec<AccountMetaPacked> = Vec::new();
    let n = b.len();
    assert(n == b@.len());
    let mut i: usize = 0;
    while i < 32
        invariant
            at + 32 * 34 <= b@.len(),
            b@.len() <= usize::MAX,
            i <= 32,
            r@.len() == i,
            forall|j: int| 0 <= j < i ==> account_at(b@, at + j * 34, #[trigger] r@[j]),
        decreases 32 - i,
    {
        let p = at + i * 34;
        let a = AccountMetaPacked {
            pubkey: copy_range(b, p, p + 32),
            is_signer: b[p + 32] != 0,
            is_writable: b[p + 33] != 0,
        };
        r.push(a);
        i += 1;
    }
    r
}

/// Reads a request account: its discriminator, then the record's fields where the fixed
/// layout places them.
pub fn decode_vrf_account(b: &[u8]) -> (r: Result<VrfAccountData, AccountError>)
    ensures
        match r {
            Ok(d) => {
                &&& b@.len() >= ACCOUNT_SIZE
                &&& b@.subrange(0, 8) == account_discriminator()
                &&& record_fields(b@, d)
                &&& d.callback.wf()
            },
            Err(AccountError::TooShort) => b@.len() < ACCOUNT_SIZE,
            Err(AccountError::InvalidDiscriminator) => b@.len() >= ACCOUNT_SIZE && b@.subrange(0, 8)
                != account_discriminator(),
            Err(AccountError::InvalidCallback) => {
                &&& b@.len() >= ACCOUNT_SIZE
                &&& b@.subrange(0, 8) == account_discriminator()
                &&& (le_u32(b@, 8 + CB_ACCOUNTS_LEN_AT) > MAX_CALLBACK_ACCOUNTS || le_u32(
                    b@,
                    8 + CB_IX_DATA_LEN_AT,
                ) > IX_DATA_CAPACITY)
            },
        },
{
    if b.len() < ACCOUNT_SIZE {
        return Err(AccountError::TooShort);
    }
    let disc = VRF_ACCOUNT_DISCRIMINATOR;
    if !bytes_at(b, 0, &disc) {
        return Err(AccountError::InvalidDiscriminator);
    }
    let accounts_len = read_u32_le(b, 8 + CB_ACCOUNTS_LEN_AT);
    let ix_data_len = read_u32_le(b, 8 + CB_IX_DATA_LEN_AT);
    if accounts_len > 32 || ix_data_len > 1024 {
        return Err(AccountError::InvalidCallback);
    }
    let callback = CallbackPacked {
        program_id: copy_range(b, 8 + CB_PROGRAM_AT, 8 + CB_ACCOUNTS_AT),
        accounts: read_accounts(b, 8 + CB_ACCOUNTS_AT),
        accounts_len,
        ix_data: copy_range(b, 8 + CB_IX_DATA_AT, 8 + CB_IX_DATA_LEN_AT),
        ix_data_len,
    };
    Ok(
        VrfAccountData {
            result: VrfResult { result: read_result(b, 8 + RESULT_AT) },
            proof: copy_range(b, 8 + PROOF_AT, 8 + SEEDS_AT),
            seeds: copy_range(b, 8 + SEEDS_AT, 8 + TIMESTAMP_AT),
            request_timestamp: read_i64_le(b, 8 + TIMESTAMP_AT),
            callback,
        },
    )
}

/// Whether an event payload starts with the randomness-request event's discriminator.
pub open spec fn is_request_event(data: Seq<u8>) -> bool {
    data.len() >= 8 && data.subrange(0, 8) == event_discriminator()
}

/// Reads the request record's address from a randomness-request event payload (after its
/// discriminator); `None` where the payload is too short to hold one.
pub fn decode_request_event(data: &[u8]) -> (r: Option<VrfRequestRandomness>)
    requires
        is_request_event(data@),
    ensures
        r is Some <==> data@.len() >= 40,
        r is Some ==> r->0.vrf@ == data@.subrange(8, 40),
{
    if data.len() < 40 {
        return None;
    }
    Some(VrfRequestRandomness { vrf: copy_range(data, 8, 40) })
}

} // verus!
