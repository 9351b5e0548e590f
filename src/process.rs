use vstd::prelude::*;

use crate::callback::{
    accounts_copied, build_callback_instruction, first_occurrence, occurs_at, overwrite, template_data,
    CallbackError, CallbackInstruction, EXPECTED_RESULT_OFFSET,
};
use crate::parse_logs::{
    error_model, event_model, lines_model, parse_logs, run, strings_model, AnchorEvent, ParseLogError,
};
use crate::randomness::{is_vrf_output, prove_and_hash, VrfError, VrfOutput};
use crate::wire::{
    account_discriminator, bytes_at, decode_request_event, decode_vrf_account,
    event_discriminator, is_request_event, le_u32, record_fields, sentinel, AccountError,
    VrfAccountData, VrfRequestRandomness, ACCOUNT_SIZE, CB_ACCOUNTS_LEN_AT, CB_IX_DATA_LEN_AT,
    IX_DATA_CAPACITY, MAX_CALLBACK_ACCOUNTS, VRF_REQUEST_EVENT_DISCRIMINATOR,
};

verus! {

/// The answer to a fulfilled request.
pub struct VrfResponse {
    pub response_transaction: String,
    pub seeds: Vec<u8>,
    pub proof: Vec<u8>,
}

/// Why one transaction's request was not fulfilled.
pub enum ProcessError {
    /// The log was malformed: every diagnostic, in order.
    ParseLog(Vec<ParseLogError>),
    /// The request event came from another program than the one this subscription watches.
    ProgramIdMismatch,
    /// The request event is too short to hold a record address.
    DeserializeEvent,
    /// The request account is not a request record.
    Account(AccountError),
    /// No randomness was computed.
    Vrf(VrfError),
    /// The callback cannot take the randomness.
    Callback(CallbackError),
}

/// `i` is the first event that is a randomness request.
pub open spec fn first_request(events: Seq<(Seq<char>, Seq<u8>)>, i: int) -> bool {
    &&& 0 <= i < events.len()
    &&& is_request_event(events[i].1)
    &&& forall|j: int| 0 <= j < i ==> !is_request_event(#[trigger] events[j].1)
}

pub open spec fn no_request(events: Seq<(Seq<char>, Seq<u8>)>) -> bool {
    forall|j: int| 0 <= j < events.len() ==> !is_request_event(#[trigger] events[j].1)
}

/// Parses one transaction's log and picks out the randomness request it makes, if any. A log
/// with any diagnostic is refused whole; the first request event must come from `program_id`.
pub fn find_request(logs: &[&str], program_ids: &[String], program_id: &String) -> (r: Result<
    Option<VrfRequestRandomness>,
    ProcessError,
>)
    ensures
        ({
            let m = run(lines_model(logs@), strings_model(program_ids@));
            match r {
                Err(ProcessError::ParseLog(errs)) => m.errors.len() > 0 && errs@.map_values(
                    |e: ParseLogError| error_model(e),
                ) == m.errors,
                Ok(None) => m.errors.len() == 0 && no_request(m.events),
                Err(ProcessError::ProgramIdMismatch) => m.errors.len() == 0 && exists|i: int|
                    first_request(m.events, i) && m.events[i].0 != program_id@,
                Err(ProcessError::DeserializeEvent) => m.errors.len() == 0 && exists|i: int|
                    first_request(m.events, i) && m.events[i].0 == program_id@
                        && m.events[i].1.len() < 40,
                Ok(Some(req)) => m.errors.len() == 0 && exists|i: int|
                    first_request(m.events, i) && m.events[i].0 == program_id@
                        && m.events[i].1.len() >= 40 && req.vrf@ == m.events[i].1.subrange(8, 40),
                Err(_) => false,
            }
        }),
{
    let (events, errors) = parse_logs(logs, program_ids);
    let ghost m = run(lines_model(logs@), strings_model(program_ids@));
    proof {
        assert(errors@.len() == m.errors.len());
        assert(events@.len() == m.events.len());
    }
    if errors.len() > 0 {
        return Err(ProcessError::ParseLog(errors));
    }
    let disc = VRF_REQUEST_EVENT_DISCRIMINATOR;
    let mut i: usize = 0;
    while i < events.len()
        invariant
            i <= events@.len(),
            disc@ == event_discriminator(),
            m.errors.len() == 0,
            m == run(lines_model(logs@), strings_model(program_ids@)),
            events@.map_values(|e: AnchorEvent| event_model(e)) == m.events,
            forall|j: int| 0 <= j < i ==> !is_request_event(#[trigger] m.events[j].1),
        decreases events@.len() - i,
    {
        let ev = &events[i];
        assert(m.events[i as int] == event_model(events@[i as int]));
        assert(m.events[i as int].0 == ev.program_id@);
        assert(m.events[i as int].1 == ev.data@);
        if bytes_at(ev.data.as_slice(), 0, &disc) {
            assert(is_request_event(ev.data@));
            assert(first_request(m.events, i as int));
            if ev.program_id != *program_id {
                return Err(ProcessError::ProgramIdMismatch);
            }
            return match decode_request_event(ev.data.as_slice()) {
                Some(req) => Ok(Some(req)),
                None => Err(ProcessError::DeserializeEvent),
            };
        }
        i += 1;
    }
    Ok(None)
}

/// What fulfilling a request produces.
pub struct Fulfillment {
    pub callback: CallbackInstruction,
    pub seeds: Vec<u8>,
    pub proof: Vec<u8>,
    pub random: [u8; 32],
}

/// Reads a request account, computes the randomness for its seed under `secret`, and completes
/// its callback with it.
pub fn fulfill_request(account: &[u8], secret: &[u8]) -> (r: Result<Fulfillment, ProcessError>)
    ensures
        match r {
            Ok(f) => account@.len() >= ACCOUNT_SIZE && account@.subrange(0, 8)
                == account_discriminator() && exists|d: VrfAccountData|
                {
                    &&& #[trigger] record_fields(account@, d)
                    &&& d.callback.wf()
                    &&& f.seeds@ == d.seeds@
                    &&& is_vrf_output(
                        secret@,
                        d.seeds@,
                        VrfOutput { proof: f.proof, random: f.random },
                    )
                    &&& first_occurrence(template_data(&d.callback), sentinel(), f.callback.offset as int)
                    &&& f.callback.instruction.data@ == overwrite(
                        template_data(&d.callback),
                        f.callback.offset as int,
                        f.random@,
                    )
                    &&& f.callback.instruction.program_id@ == d.callback.program_id@
                    &&& accounts_copied(&d.callback, f.callback.instruction.accounts@)
                    &&& f.callback.misplaced == (f.callback.offset != EXPECTED_RESULT_OFFSET)
                },
            Err(ProcessError::Account(AccountError::TooShort)) => account@.len() < ACCOUNT_SIZE,
            Err(ProcessError::Account(AccountError::InvalidDiscriminator)) => account@.len()
                >= ACCOUNT_SIZE && account@.subrange(0, 8) != account_discriminator(),
            Err(ProcessError::Account(AccountError::InvalidCallback)) => {
                &&& account@.len() >= ACCOUNT_SIZE
                &&& account@.subrange(0, 8) == account_discriminator()
                &&& (le_u32(account@, 8 + CB_ACCOUNTS_LEN_AT) > MAX_CALLBACK_ACCOUNTS || le_u32(
                    account@,
                    8 + CB_IX_DATA_LEN_AT,
                ) > IX_DATA_CAPACITY)
            },
            Err(ProcessError::Vrf(_)) => account@.len() >= ACCOUNT_SIZE && account@.subrange(0, 8)
                == account_discriminator() && exists|d: VrfAccountData|
                #[trigger] record_fields(account@, d) && d.callback.wf(),
            Err(ProcessError::Callback(CallbackError::PlaceholderNotFound)) => account@.len()
                >= ACCOUNT_SIZE && account@.subrange(0, 8) == account_discriminator() && exists|
                d: VrfAccountData,
            |
                {
                    &&& #[trigger] record_fields(account@, d)
                    &&& d.callback.wf()
                    &&& forall|k: int| !#[trigger] occurs_at(template_data(&d.callback), sentinel(), k)
                },
            Err(_) => false,
        },
{
    let data = match decode_vrf_account(account) {
        Ok(d) => d,
        Err(e) => {
            return Err(ProcessError::Account(e));
        },
    };
    assert(record_fields(account@, data));
    let out = match prove_and_hash(secret, data.seeds.as_slice()) {
        Ok(o) => o,
        Err(e) => {
            return Err(ProcessError::Vrf(e));
        },
    };
    let callback = match build_callback_instruction(&data.callback, &out.random) {
        Ok(c) => c,
        Err(e) => {
            return Err(ProcessError::Callback(e));
        },
    };
    let f = Fulfillment { callback, seeds: data.seeds, proof: out.proof, random: out.random };
    assert(record_fields(account@, data));
    Ok(f)
}

} // verus!
