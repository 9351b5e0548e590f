use vrf_server::callback::AccountMeta;
use vrf_server::request::{encode_request_event, request_randomness, RequestError};
use vrf_server::wire::{
    decode_request_event, decode_vrf_account, VrfAccountData, ACCOUNT_SIZE, VRF_ACCOUNT_DISCRIMINATOR,
    VRF_REQUEST_EVENT_DISCRIMINATOR,
};

fn fresh_record() -> VrfAccountData {
    let mut b = vec![0u8; ACCOUNT_SIZE];
    b[..8].copy_from_slice(&VRF_ACCOUNT_DISCRIMINATOR);
    match decode_vrf_account(&b) {
        Ok(d) => d,
        Err(_) => panic!("zeroed record decodes"),
    }
}

#[test]
fn request_fills_record() {
    let mut vrf = fresh_record();
    let accounts = vec![AccountMeta { pubkey: vec![3u8; 32], is_signer: false, is_writable: true }];
    let r = request_randomness(&[1, 2, 3], &mut vrf, &[9u8; 32], &accounts, &[4, 5], 77);
    assert!(r.is_ok());
    assert_eq!(&vrf.seeds[..4], &[1, 2, 3, 0]);
    assert_eq!(vrf.request_timestamp, 77);
    assert_eq!(vrf.callback.program_id, vec![9u8; 32]);
    assert_eq!(vrf.callback.accounts_len, 1);
    assert_eq!(vrf.callback.accounts[0].pubkey, vec![3u8; 32]);
    assert!(vrf.callback.accounts[0].is_writable && !vrf.callback.accounts[0].is_signer);
    assert_eq!(vrf.callback.ix_data_len, 2);
    assert_eq!(&vrf.callback.ix_data[..3], &[4, 5, 0]);
}

#[test]
fn long_seed_is_truncated_to_slot() {
    let mut vrf = fresh_record();
    let seed: Vec<u8> = (1u8..=40).collect();
    assert!(request_randomness(&seed, &mut vrf, &[0u8; 32], &vec![], &[], 1).is_ok());
    assert_eq!(vrf.seeds, (1u8..=32).collect::<Vec<u8>>());
}

#[test]
fn empty_or_zero_seed_is_refused() {
    let mut vrf = fresh_record();
    assert!(matches!(request_randomness(&[], &mut vrf, &[0u8; 32], &vec![], &[], 1), Err(RequestError::SeedsZeroedOrEmpty)));
    assert!(matches!(request_randomness(&[0, 0], &mut vrf, &[0u8; 32], &vec![], &[], 1), Err(RequestError::SeedsZeroedOrEmpty)));
    assert_eq!(vrf.request_timestamp, 0);
}

#[test]
fn request_event_round_trip() {
    let address = [6u8; 32];
    let payload = encode_request_event(&address);
    assert_eq!(&payload[..8], &VRF_REQUEST_EVENT_DISCRIMINATOR);
    assert_eq!(decode_request_event(&payload).unwrap().vrf, address.to_vec());
}

#[test]
fn fresh_request_slot_is_not_usable() {
    let mut vrf = fresh_record();
    assert!(request_randomness(&[1], &mut vrf, &[0u8; 32], &vec![], &[], 1).is_ok());
    assert!(!vrf.result.is_fulfilled());
    assert!(vrf.result.random(0, 10).is_err());
}
