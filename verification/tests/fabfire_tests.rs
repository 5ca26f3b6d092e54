use bffh::fabfire::card_key_from_hex;
use bffh::fabfire::{
    aes_challenge_command, aes_response_command, read_data_command, select_application_command,
    verify_card_answer, CardCommand, CardInfo, FabFire, FabFireError, Step, StepError,
    StepOutcome,
};
use desfire::crypto::cipher::aes::AES;
use desfire::crypto::cipher::Cipher;

fn inp(b: &[u8]) -> Option<&[u8]> {
    Some(b)
}

fn card_info() -> CardInfo {
    CardInfo { card_uid: [1, 2, 3, 4, 5, 6, 7], key_old: None, key_new: None }
}

fn sent(r: Result<StepOutcome, StepError>) -> String {
    match r {
        Ok(StepOutcome::NeedsMore(Some(CardCommand::sendPICC { data }))) => data,
        _ => panic!("expected a command for the card"),
    }
}

fn hex(bytes: &[u8]) -> String {
    bytes.iter().map(|b| format!("{:02X}", b)).collect()
}

const MAGIC: &[u8] = b"FABACCESS\0DESFIRE\x001.0\0";
const URN: &[u8] = b"urn:fabaccess:lab:innovisionlab";

fn with_status(body: &[u8]) -> Vec<u8> {
    let mut v = body.to_vec();
    v.extend_from_slice(&[0x91, 0x00]);
    v
}

#[test]
fn new_exchange_waits_for_card_info() {
    let mut f = FabFire::new_server();
    assert_eq!(f.current_step(), Step::New);
    assert!(matches!(f.step(None, None), Err(StepError::InputDataRequired)));
    assert!(matches!(
        f.step(inp(b"not json"), None),
        Err(StepError::Mechanism(FabFireError::ParseError))
    ));
    assert_eq!(f.current_step(), Step::New);
    assert!(matches!(
        f.step(inp(b"{}"), Some(card_info())),
        Ok(StepOutcome::NeedsMore(None))
    ));
    assert_eq!(f.current_step(), Step::SelectApp);
}

#[test]
fn full_exchange_up_to_the_token() {
    let mut f = FabFire::new_server();
    f.step(inp(b"{}"), Some(card_info())).ok().unwrap();

    assert_eq!(sent(f.step(None, None)), "905A00000301000000");
    assert_eq!(f.current_step(), Step::VerifyMagic);

    assert_eq!(sent(f.step(inp(&[0x91, 0x00]), None)), "90BD0000070100000016000000");
    assert_eq!(f.current_step(), Step::GetURN);

    assert_eq!(sent(f.step(inp(&with_status(MAGIC)), None)), "90BD000007020000001F000000");
    assert_eq!(f.current_step(), Step::GetToken);

    assert_eq!(sent(f.step(inp(&with_status(URN)), None)), "90BD000007030000002F000000");
    assert_eq!(f.current_step(), Step::Authenticate1);

    assert!(matches!(
        f.step(inp(&with_status(b"SomeoneElse")), None),
        Err(StepError::Mechanism(FabFireError::ParseError))
    ));
    assert_eq!(f.current_step(), Step::Authenticate1);
}

#[test]
fn refused_select_is_a_card_error() {
    let mut f = FabFire::new_server();
    f.step(inp(b"{}"), Some(card_info())).ok().unwrap();
    sent(f.step(None, None));
    assert!(matches!(
        f.step(inp(&[0x91, 0xA0]), None),
        Err(StepError::Mechanism(FabFireError::CardError(_)))
    ));
    assert_eq!(f.current_step(), Step::VerifyMagic);
}

#[test]
fn wrong_magic_or_urn_is_refused() {
    let mut f = FabFire::new_server();
    f.step(inp(b"{}"), Some(card_info())).ok().unwrap();
    sent(f.step(None, None));
    sent(f.step(inp(&[0x91, 0x00]), None));
    assert!(matches!(
        f.step(inp(&with_status(b"NOTMAGIC")), None),
        Err(StepError::Mechanism(FabFireError::ParseError))
    ));
    assert!(matches!(
        f.step(inp(&[0x91, 0x00]), None),
        Err(StepError::Mechanism(FabFireError::ParseError))
    ));
    assert!(matches!(
        f.step(inp(&[0x90, 0x00]), None),
        Err(StepError::Mechanism(FabFireError::ParseError))
    ));
    sent(f.step(inp(&with_status(MAGIC)), None));
    assert!(matches!(
        f.step(inp(&with_status(b"urn:fabaccess:lab:elsewhere")), None),
        Err(StepError::Mechanism(FabFireError::ParseError))
    ));
    assert_eq!(f.current_step(), Step::GetToken);
}

#[test]
fn command_builders() {
    assert_eq!(select_application_command(0x123456).ok().unwrap(), vec![0x90, 0x5A, 0, 0, 3, 0x56, 0x34, 0x12, 0]);
    assert!(matches!(select_application_command(0x1000000), Err(FabFireError::SerializationError)));
    assert_eq!(
        read_data_command(2, 0x10, 300).ok().unwrap(),
        vec![0x90, 0xBD, 0, 0, 7, 2, 0x10, 0, 0, 0x2C, 0x01, 0, 0]
    );
    assert!(matches!(read_data_command(0x20, 0, 1), Err(FabFireError::SerializationError)));
    assert_eq!(aes_challenge_command(0x0E).ok().unwrap(), vec![0x90, 0xAA, 0, 0, 1, 0x0E, 0]);
    assert!(matches!(aes_challenge_command(0x0F), Err(FabFireError::SerializationError)));
}

fn rotate_left(v: &[u8]) -> Vec<u8> {
    let mut r = v.to_vec();
    r.rotate_left(1);
    r
}

#[test]
fn aes_challenge_round_trip_with_a_simulated_card() {
    let key = [0x42u8; 16];
    let rnd_b: Vec<u8> = (0u8..16).collect();
    let rnd_b_enc = AES::encrypt(&rnd_b, &key, &[0u8; 16]).unwrap();
    let rnd_a: Vec<u8> = (100u8..116).collect();

    let (cmd, got_rnd_b, iv) = aes_response_command(&rnd_b_enc, &key, &rnd_a);
    assert_eq!(got_rnd_b, rnd_b);
    assert_eq!(&cmd[..5], &[0x90, 0xAF, 0, 0, 32]);
    assert_eq!(cmd.len(), 5 + 32 + 1);
    let rnd_ab_enc = &cmd[5..37];
    let mut rnd_ab = rnd_a.clone();
    rnd_ab.extend(rotate_left(&rnd_b));
    assert_eq!(rnd_ab_enc, &AES::encrypt(&rnd_ab, &key, &rnd_b_enc).unwrap()[..]);
    assert_eq!(iv, rnd_ab_enc[16..].to_vec());

    // The card answers with our number turned left, encrypted with the last block sent.
    let reply = AES::encrypt(&rotate_left(&rnd_a), &key, &iv).unwrap();
    assert!(verify_card_answer(&reply, &rnd_a, &key, &iv));
    let wrong = AES::encrypt(&rnd_a, &key, &iv).unwrap();
    assert!(!verify_card_answer(&wrong, &rnd_a, &key, &iv));
    assert!(!verify_card_answer(&reply, &rnd_a, &key[..8], &iv));
}

#[test]
fn hex_of_commands_is_upper_case() {
    assert_eq!(hex(&[0x90, 0x5a]), "905A");
}

#[test]
fn card_keys_are_read_from_hex() {
    let k = card_key_from_hex("e7aff3361c3e85347993C3219A87D24B");
    assert_eq!(
        k,
        vec![0xe7, 0xaf, 0xf3, 0x36, 0x1c, 0x3e, 0x85, 0x34, 0x79, 0x93, 0xc3, 0x21, 0x9a, 0x87, 0xd2, 0x4b]
    );
}

#[test]
fn inputs_that_cannot_be_taken() {
    let mut f = FabFire::new_server();
    assert!(f.can_step(inp(b"x")));
    f.step(inp(b"{}"), Some(card_info())).ok().unwrap();
    sent(f.step(None, None));
    assert!(!f.can_step(inp(&[0x91])));
    assert!(f.can_step(inp(&[0x91, 0x00])));
    assert!(f.can_step(None));
}
