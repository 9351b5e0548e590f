use base64::Engine;
use vrf_server::callback::{build_callback_instruction, CallbackError};
use vrf_server::process::{find_request, fulfill_request, ProcessError};
use vrf_server::randomness::{prove_and_hash, randomness_from_hash, RandomError};
use vrf_server::submit::{simulation_report, SendOutcome, SubmissionDriver, SubmitAction, SubmitError};
use vrf_server::supervise::{backfill_candidates, next_stream_step, StreamAction, StreamEvent, StreamState};
use vrf_server::wire::{
    decode_request_event, decode_vrf_account, AccountError, AccountMetaPacked, CallbackPacked, VrfResult,
    ACCOUNT_SIZE, VRF_ACCOUNT_DISCRIMINATOR, VRF_REQUEST_EVENT_DISCRIMINATOR, VRF_RESULT_DISCRIMINATOR,
};

fn template(data: &[u8], n_accounts: u32) -> CallbackPacked {
    let mut ix_data = vec![0u8; 1024];
    ix_data[..data.len()].copy_from_slice(data);
    let accounts = (0..32u8)
        .map(|i| AccountMetaPacked { pubkey: vec![i; 32], is_signer: i % 2 == 0, is_writable: i % 3 == 0 })
        .collect();
    CallbackPacked {
        program_id: vec![7u8; 32],
        accounts,
        accounts_len: n_accounts,
        ix_data,
        ix_data_len: data.len() as u32,
    }
}

fn account_bytes(data: &[u8], n_accounts: u32) -> Vec<u8> {
    let mut b = vec![0u8; ACCOUNT_SIZE];
    b[..8].copy_from_slice(&VRF_ACCOUNT_DISCRIMINATOR);
    let r = 8;
    b[r..r + 32].copy_from_slice(&VRF_RESULT_DISCRIMINATOR);
    for i in 0..32 {
        b[r + 112 + i] = i as u8 + 1;
    }
    b[r + 144..r + 152].copy_from_slice(&(-5i64).to_le_bytes());
    b[r + 152..r + 184].copy_from_slice(&[9u8; 32]);
    for i in 0..32usize {
        let at = r + 184 + i * 34;
        b[at..at + 32].copy_from_slice(&[i as u8; 32]);
        b[at + 32] = (i % 2 == 0) as u8;
        b[at + 33] = 1;
    }
    b[r + 1272..r + 1276].copy_from_slice(&n_accounts.to_le_bytes());
    b[r + 1276..r + 1276 + data.len()].copy_from_slice(data);
    b[r + 2300..r + 2304].copy_from_slice(&(data.len() as u32).to_le_bytes());
    b
}

#[test]
fn sentinel_at_expected_offset_is_replaced() {
    let mut data = vec![1u8; 8];
    data.extend_from_slice(&VRF_RESULT_DISCRIMINATOR);
    data.extend_from_slice(&[2u8, 3, 4]);
    let random = [0xABu8; 32];
    let c = match build_callback_instruction(&template(&data, 3), &random) {
        Ok(c) => c,
        Err(_) => panic!("placeholder should be found"),
    };
    assert_eq!(c.offset, 8);
    assert!(!c.misplaced);
    let mut expected = vec![1u8; 8];
    expected.extend_from_slice(&random);
    expected.extend_from_slice(&[2u8, 3, 4]);
    assert_eq!(c.instruction.data, expected);
    assert_eq!(c.instruction.program_id, vec![7u8; 32]);
    assert_eq!(c.instruction.accounts.len(), 3);
    assert_eq!(c.instruction.accounts[1].pubkey, vec![1u8; 32]);
    assert!(!c.instruction.accounts[1].is_signer);
    assert!(c.instruction.accounts[0].is_signer && c.instruction.accounts[0].is_writable);
}

#[test]
fn sentinel_elsewhere_is_replaced_once_and_flagged() {
    let mut data = vec![5u8; 3];
    data.extend_from_slice(&VRF_RESULT_DISCRIMINATOR);
    data.extend_from_slice(&VRF_RESULT_DISCRIMINATOR);
    let random = [1u8; 32];
    let c = match build_callback_instruction(&template(&data, 0), &random) {
        Ok(c) => c,
        Err(_) => panic!("placeholder should be found"),
    };
    assert_eq!(c.offset, 3);
    assert!(c.misplaced);
    assert_eq!(&c.instruction.data[3..35], &random);
    assert_eq!(&c.instruction.data[35..], &VRF_RESULT_DISCRIMINATOR);
    assert!(c.instruction.accounts.is_empty());
}

#[test]
fn missing_sentinel_fails() {
    let data = vec![0u8; 64];
    assert!(matches!(build_callback_instruction(&template(&data, 1), &[1u8; 32]), Err(CallbackError::PlaceholderNotFound)));
}

#[test]
fn unfulfilled_results_are_rejected() {
    let sentinel = VrfResult::default();
    assert_eq!(sentinel.result, VRF_RESULT_DISCRIMINATOR);
    assert!(!sentinel.is_fulfilled());
    assert!(matches!(sentinel.random(0, 100), Err(RandomError::VrfNotFulfilled)));
    assert!(matches!(sentinel.random(3, 3), Err(RandomError::VrfNotFulfilled)));
    let zero = VrfResult { result: [0u8; 32] };
    assert!(!zero.is_fulfilled());
    assert!(matches!(zero.random(0, 100), Err(RandomError::VrfNotFulfilled)));
    assert!(matches!(zero.random(-4, -4), Err(RandomError::VrfNotFulfilled)));
}

#[test]
fn random_falls_in_inclusive_range() {
    let mut result = [0u8; 32];
    result[15] = 250;
    let r = VrfResult { result };
    assert!(r.is_fulfilled());
    assert_eq!(r.random(0, 100).ok(), Some(48));
    assert_eq!(r.random(10, 20).ok(), Some(18));
    assert_eq!(r.random(7, 7).ok(), Some(7));
    let mut neg = [0xFFu8; 32];
    neg[15] = 0xF9; // leading i128 is -7
    assert_eq!(VrfResult { result: neg }.random(0, 5).ok(), Some(5));
    let ones = VrfResult { result: [0xFFu8; 32] }; // leading i128 is -1
    assert_eq!(ones.random(0, 5).ok(), Some(5));
    assert_eq!(ones.random(i64::MIN, i64::MAX).ok(), Some(i64::MAX));
    for (lo, hi) in [(0i64, 100i64), (-50, 50), (i64::MIN, i64::MAX), (9, 10)] {
        let v = r.random(lo, hi).unwrap_or(lo - 1);
        assert!(lo <= v && v <= hi);
    }
}

#[test]
fn randomness_is_leading_hash_bytes() {
    let hash: Vec<u8> = (0u8..40).collect();
    let r = randomness_from_hash(&hash).unwrap();
    assert_eq!(r.to_vec(), (0u8..32).collect::<Vec<u8>>());
    assert!(randomness_from_hash(&hash[..31]).is_none());
}

#[test]
fn prove_and_hash_is_deterministic() {
    let secret = [7u8; 32];
    let seed = [3u8; 32];
    let a = prove_and_hash(&secret, &seed).ok().expect("proof");
    let b = prove_and_hash(&secret, &seed).ok().expect("proof");
    assert_eq!(a.proof, b.proof);
    assert_eq!(a.random, b.random);
    assert_ne!(a.random, [0u8; 32]);
    let c = prove_and_hash(&secret, &[4u8; 32]).ok().expect("proof");
    assert_ne!(a.random, c.random);
}

#[test]
fn account_decoding_errors() {
    assert!(matches!(decode_vrf_account(&[0u8; 10]), Err(AccountError::TooShort)));
    let mut b = account_bytes(&VRF_RESULT_DISCRIMINATOR, 1);
    b[0] ^= 1;
    assert!(matches!(decode_vrf_account(&b), Err(AccountError::InvalidDiscriminator)));
    let b = account_bytes(&VRF_RESULT_DISCRIMINATOR, 33);
    assert!(matches!(decode_vrf_account(&b), Err(AccountError::InvalidCallback)));
}

#[test]
fn account_decoding_reads_layout() {
    let b = account_bytes(&VRF_RESULT_DISCRIMINATOR, 2);
    let d = match decode_vrf_account(&b) {
        Ok(d) => d,
        Err(_) => panic!("valid account"),
    };
    assert_eq!(d.result.result, VRF_RESULT_DISCRIMINATOR);
    assert_eq!(d.seeds, (1u8..=32).collect::<Vec<u8>>());
    assert_eq!(d.request_timestamp, -5);
    assert_eq!(d.callback.program_id, vec![9u8; 32]);
    assert_eq!(d.callback.accounts_len, 2);
    assert_eq!(d.callback.ix_data_len, 32);
    assert_eq!(d.callback.accounts[3].pubkey, vec![3u8; 32]);
    assert!(!d.callback.accounts[3].is_signer && d.callback.accounts[3].is_writable);
}

#[test]
fn fulfill_request_completes_callback() {
    let mut data = vec![0u8; 8];
    data.extend_from_slice(&VRF_RESULT_DISCRIMINATOR);
    let b = account_bytes(&data, 2);
    let f = match fulfill_request(&b, &[7u8; 32]) {
        Ok(f) => f,
        Err(_) => panic!("fulfillment"),
    };
    assert_eq!(f.seeds, (1u8..=32).collect::<Vec<u8>>());
    assert_eq!(f.callback.offset, 8);
    assert_eq!(&f.callback.instruction.data[8..40], &f.random);
    assert_eq!(f.callback.instruction.program_id, vec![9u8; 32]);
    assert!(!f.callback.misplaced);
    assert_eq!(f.callback.instruction.accounts.len(), 2);
    assert_eq!(f.callback.instruction.accounts[1].pubkey, vec![1u8; 32]);
    assert!(matches!(fulfill_request(&b[..100], &[7u8; 32]), Err(ProcessError::Account(AccountError::TooShort))));
    let mut wrong = b.clone();
    wrong[7] ^= 0xFF;
    assert!(matches!(fulfill_request(&wrong, &[7u8; 32]), Err(ProcessError::Account(AccountError::InvalidDiscriminator))));
    let b = account_bytes(&[1u8; 40], 2);
    assert!(matches!(fulfill_request(&b, &[7u8; 32]), Err(ProcessError::Callback(CallbackError::PlaceholderNotFound))));
}

fn request_line(address: &[u8; 32]) -> String {
    let mut payload = VRF_REQUEST_EVENT_DISCRIMINATOR.to_vec();
    payload.extend_from_slice(address);
    format!("Program data: {}", base64::engine::general_purpose::STANDARD.encode(payload))
}

#[test]
fn find_request_picks_request_event() {
    let line = request_line(&[4u8; 32]);
    let logs = ["Program P invoke [1]", "Program data: aGVsbG8=", line.as_str(), "Program P success"];
    let ids = ["P".to_string()];
    match find_request(&logs, &ids, &"P".to_string()) {
        Ok(Some(req)) => assert_eq!(req.vrf, vec![4u8; 32]),
        _ => panic!("request expected"),
    }
    assert!(matches!(find_request(&logs, &ids, &"Q".to_string()), Err(ProcessError::ProgramIdMismatch)));
    let quiet = ["Program P invoke [1]", "Program data: aGVsbG8=", "Program P success"];
    assert!(matches!(find_request(&quiet, &ids, &"P".to_string()), Ok(None)));
    let broken = ["Program P invoke [1]", "Program Q success"];
    assert!(matches!(find_request(&broken, &ids, &"P".to_string()), Err(ProcessError::ParseLog(e)) if e.len() == 1));
}

#[test]
fn short_request_event_fails_to_deserialize() {
    let line = format!(
        "Program data: {}",
        base64::engine::general_purpose::STANDARD.encode(VRF_REQUEST_EVENT_DISCRIMINATOR)
    );
    let logs = ["Program P invoke [1]", line.as_str(), "Program P success"];
    assert!(matches!(find_request(&logs, &["P".to_string()], &"P".to_string()), Err(ProcessError::DeserializeEvent)));
    let mut payload = VRF_REQUEST_EVENT_DISCRIMINATOR.to_vec();
    payload.extend_from_slice(&[1u8; 33]);
    assert_eq!(decode_request_event(&payload).unwrap().vrf, vec![1u8; 32]);
}

#[test]
fn driver_retries_transient_failures_within_budget() {
    let mut d = SubmissionDriver::new(2);
    assert!(matches!(d.on_outcome(SendOutcome::BlockhashNotFound), SubmitAction::Retry));
    assert!(matches!(d.on_outcome(SendOutcome::AlreadyProcessed), SubmitAction::Retry));
    assert!(matches!(d.on_outcome(SendOutcome::Network), SubmitAction::Fail(SubmitError::RetriesExhausted)));
    assert_eq!(d.retries, 2);
}

#[test]
fn driver_stops_on_preflight_and_other_errors() {
    let mut d = SubmissionDriver::new(5);
    match d.on_outcome(SendOutcome::PreflightFailure(vec!["a".to_string()])) {
        SubmitAction::Fail(SubmitError::Preflight(logs)) => assert_eq!(logs, vec!["a".to_string()]),
        _ => panic!("preflight is terminal"),
    }
    assert!(matches!(d.on_outcome(SendOutcome::Other("x".to_string())), SubmitAction::Fail(SubmitError::Rejected(m)) if m == "x"));
    assert_eq!(d.retries, 0);
    match d.on_outcome(SendOutcome::Confirmed("sig".to_string())) {
        SubmitAction::Done(s) => assert_eq!(s, "sig"),
        _ => panic!("confirmed"),
    }
}

#[test]
fn simulation_report_lists_logs() {
    let r = simulation_report(&vec!["one".to_string(), "two".to_string()]);
    assert_eq!(r, "Simulation error logs:\tone\n\ttwo\n");
}

#[test]
fn stream_supervision_steps() {
    let (s, a) = next_stream_step(StreamState::Connecting, StreamEvent::Subscribed);
    assert!(s == StreamState::Streaming && a == StreamAction::Listen);
    let (s, a) = next_stream_step(s, StreamEvent::Notification { failed: true });
    assert!(s == StreamState::Streaming && a == StreamAction::Skip);
    let (s, a) = next_stream_step(s, StreamEvent::Notification { failed: false });
    assert!(s == StreamState::Streaming && a == StreamAction::Dispatch);
    let (s, a) = next_stream_step(s, StreamEvent::StreamEnded);
    assert!(s == StreamState::Disconnected && a == StreamAction::WaitToReconnect);
    let (s, a) = next_stream_step(s, StreamEvent::BackoffElapsed);
    assert!(s == StreamState::Connecting && a == StreamAction::Subscribe);
    let (s, a) = next_stream_step(s, StreamEvent::SubscribeFailed);
    assert!(s == StreamState::Disconnected && a == StreamAction::WaitToReconnect);
}

#[test]
fn backfill_keeps_successful_transactions() {
    assert_eq!(backfill_candidates(&[false, true, false, true]), vec![0, 2]);
    assert!(backfill_candidates(&[]).is_empty());
}
