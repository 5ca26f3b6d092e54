//! The FabFire card authentication mechanism: a challenge exchange with a
//! MIFARE DESFire card, carried out one step at a time through a reader that
//! forwards card commands and answers.

use vstd::prelude::*;
use vstd::slice::slice_to_vec;
use vstd::string::StringSliceAdditionalSpecFns;
use vstd::utf8::valid_utf8;
use desfire::crypto::cipher::Cipher;

verus! {

/// Errors of the card library, carried through as they are.
#[verifier::external_type_specification]
#[verifier::external_body]
pub struct ExCardError(desfire::error::Error);

/// The DESFire status words that the card library accepts as success:
/// `91 00` (operation ok), `91 0C` (no changes) and `91 AF` (additional frame).
pub open spec fn status_ok(sw1: u8, sw2: u8) -> bool {
    sw1 == 0x91 && (sw2 == 0x00 || sw2 == 0x0C || sw2 == 0xAF)
}

/// An answer from the card: the data it sent and its status word.
pub struct ApduResponse {
    pub body: Option<Vec<u8>>,
    pub sw1: u8,
    pub sw2: u8,
}

/// The data part of a raw answer: everything before the two status bytes,
/// absent when there is nothing before them.
pub open spec fn answer_body(raw: Seq<u8>) -> Option<Seq<u8>> {
    if raw.len() <= 2 {
        None
    } else {
        Some(raw.subrange(0, raw.len() - 2))
    }
}

/// Whether the status word at the end of a raw answer reports success.
pub open spec fn answer_ok(raw: Seq<u8>) -> bool {
    status_ok(raw[raw.len() - 2], raw[raw.len() - 1])
}

/// `APDUResponse::new` of the card library: the last two bytes are the
/// status word, what stands before them is the body (none when nothing
/// does). It panics on fewer than two bytes.
#[verifier::external_body]
fn parse_answer(raw: &[u8]) -> (r: ApduResponse)
    requires
        raw@.len() >= 2,
    ensures
        r.sw1 == raw@[raw@.len() - 2],
        r.sw2 == raw@[raw@.len() - 1],
        r.body is None <==> answer_body(raw@) is None,
        r.body matches Some(b) ==> answer_body(raw@) == Some(b@),
{
    let resp = desfire::iso7816_4::apduresponse::APDUResponse::new(raw);
    ApduResponse { body: resp.body, sw1: resp.sw1, sw2: resp.sw2 }
}

/// `APDUResponse::check` of the card library, which looks at the status word
/// alone: success exactly for the status words of `status_ok`.
#[verifier::external_body]
fn check_status(sw1: u8, sw2: u8) -> (r: Result<(), desfire::error::Error>)
    ensures
        r is Ok <==> status_ok(sw1, sw2),
{
    desfire::iso7816_4::apduresponse::APDUResponse { body: None, sw1, sw2 }.check()
}

/// The bytes of a short command with data and an expected answer length of
/// zero (ISO 7816-4 case 4): class, instruction, two zero parameters, the
/// data length, the data and the zero length byte.
pub open spec fn case4_bytes(cla: u8, ins: u8, data: Seq<u8>) -> Seq<u8> {
    seq![cla, ins, 0u8, 0u8, (data.len() % 256) as u8] + data + seq![0u8]
}

/// `Vec::<u8>::try_from(APDUCommand)` of the card library, for a case 4
/// command built from the given class, instruction and data with all other
/// fields at their defaults; the source serialises such a command without
/// failing, as `case4_bytes` says.
#[verifier::external_body]
fn encode_case4(cla: u8, ins: u8, data: Vec<u8>) -> (r: Result<Vec<u8>, desfire::error::Error>)
    ensures
        r is Ok,
        r.unwrap()@ == case4_bytes(cla, ins, data@),
{
    let cmd = desfire::iso7816_4::apducommand::APDUCommand {
        case: desfire::iso7816_4::apducommand::IsoCase::Case4Short,
        cla,
        ins,
        data: Some(data),
        ..Default::default()
    };
    Vec::<u8>::try_from(cmd)
}

/// What AES-128 in CBC mode without padding makes of `data` under `key` and
/// the initialisation vector `iv`.
pub uninterp spec fn aes_cbc_encrypt(data: Seq<u8>, key: Seq<u8>, iv: Seq<u8>) -> Seq<u8>;

/// What AES-128 in CBC mode without padding decrypts `data` to under `key`
/// and the initialisation vector `iv`.
pub uninterp spec fn aes_cbc_decrypt(data: Seq<u8>, key: Seq<u8>, iv: Seq<u8>) -> Seq<u8>;

/// `AES::encrypt` of the card library. It fails when the key or the vector
/// is not 16 bytes long, panics when the data is not a whole number of
/// blocks, and otherwise gives as many bytes as it was given.
#[verifier::external_body]
fn aes_encrypt(data: &[u8], key: &[u8], iv: &[u8]) -> (r: Result<Vec<u8>, desfire::error::Error>)
    requires
        data@.len() % 16 == 0,
    ensures
        r is Ok <==> (key@.len() == 16 && iv@.len() == 16),
        r matches Ok(v) ==> v@ == aes_cbc_encrypt(data@, key@, iv@) && v@.len() == data@.len(),
{
    desfire::crypto::cipher::aes::AES::encrypt(data, key, iv)
}

/// `AES::decrypt` of the card library. It fails when the key or the vector
/// is not 16 bytes long or the data is not a whole number of blocks, and
/// otherwise gives as many bytes as it was given.
#[verifier::external_body]
fn aes_decrypt(data: &[u8], key: &[u8], iv: &[u8]) -> (r: Result<Vec<u8>, desfire::error::Error>)
    ensures
        r is Ok <==> (key@.len() == 16 && iv@.len() == 16 && data@.len() % 16 == 0),
        r matches Ok(v) ==> v@ == aes_cbc_decrypt(data@, key@, iv@) && v@.len() == data@.len(),
{
    desfire::crypto::cipher::aes::AES::decrypt(data, key, iv)
}

/// The upper-case hexadecimal digit for a value below sixteen.
pub open spec fn hex_digit(n: int) -> char {
    if n < 10 {
        (48 + n) as char
    } else {
        (55 + n) as char
    }
}

/// Two upper-case hexadecimal digits per byte, high half first.
pub open spec fn hex_upper(data: Seq<u8>) -> Seq<char> {
    Seq::new(
        2 * data.len(),
        |i: int|
            if i % 2 == 0 {
                hex_digit((data[i / 2] / 16) as int)
            } else {
                hex_digit((data[i / 2] % 16) as int)
            },
    )
}

/// Decoding an upper-case hexadecimal encoding gives back the bytes that
/// were encoded: the encoding is a hexadecimal string, two digits per byte,
/// and reads back to the same bytes.
pub proof fn law_hex_round_trip(data: Seq<u8>)
    ensures
        is_hex(hex_upper(data)),
        hex_upper(data).len() == 2 * data.len(),
        hex_bytes(hex_upper(data)) == data,
{
    let h = hex_upper(data);
    assert forall|i: int| 0 <= i < h.len() implies is_hex_digit(#[trigger] h[i]) by {
        let b = data[i / 2];
        assert(0 <= b / 16 < 16 && 0 <= b % 16 < 16);
    }
    assert(h.len() % 2 == 0);
    assert forall|i: int| 0 <= i < data.len() implies #[trigger] hex_bytes(h)[i] == data[i] by {
        let b = data[i];
        assert((2 * i) / 2 == i);
        assert((2 * i + 1) / 2 == i);
        assert((2 * i) % 2 == 0);
        assert((2 * i + 1) % 2 == 1);
        let hi = b / 16;
        let lo = b % 16;
        assert(hex_digit_value(hex_digit(hi as int)) == hi);
        assert(hex_digit_value(hex_digit(lo as int)) == lo);
        assert(hi * 16 + lo == b);
    }
    assert(hex_bytes(h) =~= data);
}

/// `hex::encode_upper`.
#[verifier::external_body]
fn encode_hex_upper(data: &[u8]) -> (s: String)
    ensures
        s@ == hex_upper(data@),
{
    hex::encode_upper(data)
}

/// Errors of the hex library.
#[verifier::external_type_specification]
#[verifier::external_body]
pub struct ExFromHexError(hex::FromHexError);

/// Whether `c` is a hexadecimal digit, in either case.
pub open spec fn is_hex_digit(c: char) -> bool {
    ('0' <= c && c <= '9') || ('a' <= c && c <= 'f') || ('A' <= c && c <= 'F')
}

/// The value of a hexadecimal digit.
pub open spec fn hex_digit_value(c: char) -> int {
    if '0' <= c && c <= '9' {
        c as int - 48
    } else if 'a' <= c && c <= 'f' {
        c as int - 87
    } else {
        c as int - 55
    }
}

/// Whether `s` is a hexadecimal string: an even number of digits.
pub open spec fn is_hex(s: Seq<char>) -> bool {
    &&& s.len() % 2 == 0
    &&& forall|i: int| 0 <= i < s.len() ==> is_hex_digit(#[trigger] s[i])
}

/// The bytes a hexadecimal string stands for, two digits each, high half
/// first.
pub open spec fn hex_bytes(s: Seq<char>) -> Seq<u8> {
    Seq::new(
        s.len() / 2,
        |i: int| (hex_digit_value(s[2 * i]) * 16 + hex_digit_value(s[2 * i + 1])) as u8,
    )
}

/// `hex::decode`: it refuses strings of odd length and characters other than
/// hexadecimal digits.
#[verifier::external_body]
fn decode_hex(s: &str) -> (r: Result<Vec<u8>, hex::FromHexError>)
    ensures
        r is Ok <==> is_hex(s@),
        r matches Ok(v) ==> v@ == hex_bytes(s@),
{
    hex::decode(s)
}

/// The AES key of a user's card, stored with the user as 32 hexadecimal
/// digits.
pub fn card_key_from_hex(key: &str) -> (k: Vec<u8>)
    requires
        is_hex(key@),
        key@.len() == 32,
    ensures
        k@ == hex_bytes(key@),
        k@.len() == 16,
{
    match decode_hex(key) {
        Ok(v) => v,
        Err(_) => {
            assert(false);
            Vec::new()
        },
    }
}

/// `std::str::from_utf8`, of which only whether it succeeds is used: it does
/// exactly for valid UTF-8.
#[verifier::external_body]
fn utf8_valid(bytes: &[u8]) -> (r: bool)
    ensures
        r == valid_utf8(bytes@),
{
    std::str::from_utf8(bytes).is_ok()
}

/// `rand::random` for sixteen bytes. Nothing is known of the bytes.
#[verifier::external_body]
fn random_challenge() -> [u8; 16] {
    rand::random()
}


/// The class byte of every DESFire command.
pub const CARD_CLASS: u8 = 0x90;
/// Instruction: select an application.
pub const SELECT_APPLICATION: u8 = 0x5A;
/// Instruction: read data from a file.
pub const READ_DATA: u8 = 0xBD;
/// Instruction: start an AES authentication.
pub const AUTHENTICATE_AES: u8 = 0xAA;
/// Instruction: continue with the next frame.
pub const ADDITIONAL_FRAME: u8 = 0xAF;
/// The file that holds the magic string of a FabFire card.
pub const MAGIC_FILE_ID: u8 = 0x01;
/// The file that holds the URN of the space the card belongs to.
pub const URN_FILE_ID: u8 = 0x02;
/// The file that holds the user's token.
pub const TOKEN_FILE_ID: u8 = 0x03;
/// How many bytes a single read asks for at most, here the token's length.
pub const TOKEN_LEN: usize = 47;

/// The three low bytes of `x`, least significant first.
pub open spec fn le3(x: int) -> Seq<u8> {
    seq![(x % 256) as u8, ((x / 256) % 256) as u8, ((x / 65536) % 256) as u8]
}

/// The three bytes of `le3(x)`, read least significant first, give back `x`
/// for every `x` that fits in three bytes.
pub proof fn law_le3_reads_back(x: int)
    requires
        0 <= x < 0x100_0000,
    ensures
        le3(x).len() == 3,
        le3(x)[0] + 256 * le3(x)[1] + 65536 * le3(x)[2] == x,
{
    let a = x % 256;
    let b = (x / 256) % 256;
    let c = (x / 65536) % 256;
    assert(x == a + 256 * b + 65536 * c) by (nonlinear_arith)
        requires
            0 <= x < 0x100_0000,
            a == x % 256,
            b == (x / 256) % 256,
            c == (x / 65536) % 256,
    ;
}

/// A case 4 command is five header bytes (class, instruction, two zero
/// parameters and the data length), the data, and a zero length byte.
pub proof fn law_case4_layout(cla: u8, ins: u8, data: Seq<u8>)
    requires
        data.len() < 256,
    ensures
        ({
            let b = case4_bytes(cla, ins, data);
            &&& b.len() == data.len() + 6
            &&& b[0] == cla && b[1] == ins && b[2] == 0 && b[3] == 0
            &&& b[4] == data.len()
            &&& b.subrange(5, 5 + data.len() as int) == data
            &&& b.last() == 0
        }),
{
    let b = case4_bytes(cla, ins, data);
    assert(b.subrange(5, 5 + data.len() as int) =~= data);
}

fn le3_u32(x: u32) -> (v: Vec<u8>)
    ensures
        v@ == le3(x as int),
{
    vec![(x % 256) as u8, ((x / 256) % 256) as u8, ((x / 65536) % 256) as u8]
}

fn le3_usize(x: usize) -> (v: Vec<u8>)
    ensures
        v@ == le3(x as int),
{
    vec![(x % 256) as u8, ((x / 256) % 256) as u8, ((x / 65536) % 256) as u8]
}

/// What went wrong in a step of the mechanism.
pub enum FabFireError {
    /// The reader or the card sent something that does not fit.
    ParseError,
    /// A command for the card could not be built.
    SerializationError,
    /// The card refused a command.
    CardError(desfire::error::Error),
}

/// The command that selects application `aid` on the card; identifiers
/// wider than three bytes are refused.
pub open spec fn select_application_bytes(aid: u32) -> Seq<u8> {
    case4_bytes(CARD_CLASS, SELECT_APPLICATION, le3(aid as int))
}

/// The command that reads `length` bytes from `offset` in file `file_id`.
pub open spec fn read_data_bytes(file_id: u8, offset: int, length: int) -> Seq<u8> {
    case4_bytes(CARD_CLASS, READ_DATA, seq![file_id] + le3(offset) + le3(length))
}

/// The command that asks the card for an AES challenge for key `key_id`.
pub open spec fn aes_challenge_bytes(key_id: u8) -> Seq<u8> {
    case4_bytes(CARD_CLASS, AUTHENTICATE_AES, seq![key_id])
}

/// Builds the command that selects application `aid`.
pub fn select_application_command(aid: u32) -> (r: Result<Vec<u8>, FabFireError>)
    ensures
        aid > 0xFFFFFF ==> r matches Err(FabFireError::SerializationError),
        aid <= 0xFFFFFF ==> (r matches Ok(v) && v@ == select_application_bytes(aid)),
{
    if aid > 0xFFFFFF {
        return Err(FabFireError::SerializationError);
    }
    let data = le3_u32(aid);
    match encode_case4(CARD_CLASS, SELECT_APPLICATION, data) {
        Ok(v) => Ok(v),
        Err(_) => Err(FabFireError::SerializationError),
    }
}

/// Builds the command that reads `length` bytes from `offset` in file
/// `file_id`; there are 32 files, numbered from zero.
pub fn read_data_command(file_id: u8, offset: u32, length: usize) -> (r: Result<Vec<u8>, FabFireError>)
    ensures
        file_id >= 0x20 ==> r matches Err(FabFireError::SerializationError),
        file_id < 0x20 ==> (r matches Ok(v) && v@ == read_data_bytes(file_id, offset as int, length as int)),
{
    if file_id >= 0x20 {
        return Err(FabFireError::SerializationError);
    }
    let mut data: Vec<u8> = vec![file_id];
    let mut off = le3_u32(offset);
    let mut len = le3_usize(length);
    data.append(&mut off);
    data.append(&mut len);
    assert(data@ =~= seq![file_id] + le3(offset as int) + le3(length as int));
    match encode_case4(CARD_CLASS, READ_DATA, data) {
        Ok(v) => Ok(v),
        Err(_) => Err(FabFireError::SerializationError),
    }
}

/// Builds the command that asks for an AES challenge for key `key_id`;
/// keys are numbered from 0 to 14.
pub fn aes_challenge_command(key_id: u8) -> (r: Result<Vec<u8>, FabFireError>)
    ensures
        key_id > 0x0E ==> r matches Err(FabFireError::SerializationError),
        key_id <= 0x0E ==> (r matches Ok(v) && v@ == aes_challenge_bytes(key_id)),
{
    if key_id > 0x0E {
        return Err(FabFireError::SerializationError);
    }
    match encode_case4(CARD_CLASS, AUTHENTICATE_AES, vec![key_id]) {
        Ok(v) => Ok(v),
        Err(_) => Err(FabFireError::SerializationError),
    }
}

/// Sixteen zero bytes, the vector with which the card's challenge is
/// decrypted.
pub open spec fn zero_block() -> Seq<u8> {
    Seq::new(16, |i: int| 0u8)
}

/// `s` turned one place to the left: the first byte moves to the end.
pub open spec fn rotate_left_one(s: Seq<u8>) -> Seq<u8> {
    if s.len() == 0 {
        s
    } else {
        s.drop_first().push(s[0])
    }
}

/// `s` turned one place to the right: the last byte moves to the front.
pub open spec fn rotate_right_one(s: Seq<u8>) -> Seq<u8> {
    if s.len() == 0 {
        s
    } else {
        seq![s.last()] + s.drop_last()
    }
}

/// Turning a block one place left moves each byte one place towards the
/// front and the first byte to the end; turning it right undoes that, and
/// the other way round. So the card's reply is valid exactly when it
/// decrypts to our number turned one place left.
pub proof fn law_rotations_undo_each_other(s: Seq<u8>, rnd_a_enc: Seq<u8>, rnd_a: Seq<u8>, key: Seq<u8>, iv: Seq<u8>)
    ensures
        rotate_left_one(s).len() == s.len(),
        rotate_right_one(s).len() == s.len(),
        forall|i: int| 0 <= i < s.len() ==> #[trigger] rotate_left_one(s)[i] == s[(i + 1) % (s.len() as int)],
        s.len() > 0 ==> rotate_right_one(s)[0] == s.last(),
        rotate_right_one(rotate_left_one(s)) == s,
        rotate_left_one(rotate_right_one(s)) == s,
        key.len() == 16 && iv.len() == 16 && rnd_a_enc.len() % 16 == 0 ==> (card_answer_valid(
            rnd_a_enc,
            rnd_a,
            key,
            iv,
        ) <==> aes_cbc_decrypt(rnd_a_enc, key, iv) == rotate_left_one(rnd_a)),
{
    if s.len() > 0 {
        assert(rotate_right_one(rotate_left_one(s)) =~= s);
        assert(rotate_left_one(rotate_right_one(s)) =~= s);
        assert forall|i: int| 0 <= i < s.len() implies #[trigger] rotate_left_one(s)[i] == s[(i + 1) % (s.len() as int)] by {
            if i + 1 < s.len() {
                vstd::arithmetic::div_mod::lemma_small_mod((i + 1) as nat, s.len());
            } else {
                assert((i + 1) % (s.len() as int) == 0) by (nonlinear_arith)
                    requires
                        i + 1 == s.len(),
                        s.len() > 0,
                ;
            }
        }
    }
    let d = aes_cbc_decrypt(rnd_a_enc, key, iv);
    if d.len() > 0 {
        assert(rotate_right_one(rotate_left_one(d)) =~= d);
        assert(rotate_left_one(rotate_right_one(d)) =~= d);
    }
    if rnd_a.len() > 0 {
        assert(rotate_right_one(rotate_left_one(rnd_a)) =~= rnd_a);
    }
}

fn rotated_left(s: &[u8]) -> (v: Vec<u8>)
    ensures
        v@ == rotate_left_one(s@),
{
    let n = s.len();
    if n == 0 {
        return Vec::new();
    }
    let mut v: Vec<u8> = Vec::new();
    let mut i: usize = 1;
    while i < n
        invariant
            n == s@.len(),
            1 <= i <= n,
            v@ =~= s@.subrange(1, i as int),
        decreases n - i,
    {
        v.push(s[i]);
        i = i + 1;
    }
    v.push(s[0]);
    assert(v@ =~= rotate_left_one(s@));
    v
}

fn rotated_right(s: &[u8]) -> (v: Vec<u8>)
    ensures
        v@ == rotate_right_one(s@),
{
    let n = s.len();
    if n == 0 {
        return Vec::new();
    }
    let mut v: Vec<u8> = vec![s[n - 1]];
    let mut i: usize = 0;
    while i < n - 1
        invariant
            n == s@.len(),
            n >= 1,
            i <= n - 1,
            v@ =~= seq![s@[n - 1]] + s@.subrange(0, i as int),
        decreases n - 1 - i,
    {
        v.push(s[i]);
        i = i + 1;
    }
    assert(v@ =~= rotate_right_one(s@));
    v
}

/// The encrypted pair of random numbers that answers the card's challenge
/// `rnd_b_enc`: our number `rnd_a`, then the card's number turned one
/// place to the left, encrypted under `key` with the challenge as vector.
pub open spec fn challenge_answer(rnd_b_enc: Seq<u8>, key: Seq<u8>, rnd_a: Seq<u8>) -> Seq<u8> {
    aes_cbc_encrypt(
        rnd_a + rotate_left_one(aes_cbc_decrypt(rnd_b_enc, key, zero_block())),
        key,
        rnd_b_enc,
    )
}

/// Answers the card's encrypted challenge `rnd_b_enc` with our random
/// number `rnd_a`: gives the command to send, the card's decrypted number
/// and the vector for checking the card's reply (the last block sent).
pub fn aes_response_command(rnd_b_enc: &[u8], key: &[u8], rnd_a: &[u8]) -> (r: (Vec<u8>, Vec<u8>, Vec<u8>))
    requires
        rnd_b_enc@.len() == 16,
        key@.len() == 16,
        rnd_a@.len() == 16,
    ensures
        r.0@ == case4_bytes(CARD_CLASS, ADDITIONAL_FRAME, challenge_answer(rnd_b_enc@, key@, rnd_a@)),
        r.1@ == aes_cbc_decrypt(rnd_b_enc@, key@, zero_block()),
        r.2@ == challenge_answer(rnd_b_enc@, key@, rnd_a@).subrange(16, 32),
{
    let zero_iv: Vec<u8> = vec![0u8, 0u8, 0u8, 0u8, 0u8, 0u8, 0u8, 0u8, 0u8, 0u8, 0u8, 0u8, 0u8, 0u8, 0u8, 0u8];
    assert(zero_iv@ =~= zero_block());
    let rnd_b = match aes_decrypt(rnd_b_enc, key, zero_iv.as_slice()) {
        Ok(v) => v,
        Err(_) => {
            assert(false);
            Vec::new()
        },
    };
    let rnd_b_rl = rotated_left(rnd_b.as_slice());
    let mut rnd_ab = slice_to_vec(rnd_a);
    let mut tail = rnd_b_rl;
    rnd_ab.append(&mut tail);
    assert(rnd_ab@ =~= rnd_a@ + rotate_left_one(rnd_b@));
    let enc = match aes_encrypt(rnd_ab.as_slice(), key, rnd_b_enc) {
        Ok(v) => v,
        Err(_) => {
            assert(false);
            Vec::new()
        },
    };
    let mut iv: Vec<u8> = Vec::new();
    let mut i: usize = 16;
    while i < 32
        invariant
            enc@.len() == 32,
            16 <= i <= 32,
            iv@ =~= enc@.subrange(16, i as int),
        decreases 32 - i,
    {
        iv.push(enc[i]);
        i = i + 1;
    }
    let cmd = match encode_case4(CARD_CLASS, ADDITIONAL_FRAME, enc) {
        Ok(v) => v,
        Err(_) => Vec::new(),
    };
    (cmd, rnd_b, iv)
}

/// Whether the card's reply `rnd_a_enc` proves that it knows the key: it
/// decrypts under `key` and `iv` to our number turned one place right.
pub open spec fn card_answer_valid(rnd_a_enc: Seq<u8>, rnd_a: Seq<u8>, key: Seq<u8>, iv: Seq<u8>) -> bool {
    &&& key.len() == 16
    &&& iv.len() == 16
    &&& rnd_a_enc.len() % 16 == 0
    &&& rotate_right_one(aes_cbc_decrypt(rnd_a_enc, key, iv)) == rnd_a
}

/// Checks the card's reply to our answer.
pub fn verify_card_answer(rnd_a_enc: &[u8], rnd_a: &[u8], key: &[u8], iv: &[u8]) -> (r: bool)
    ensures
        r == card_answer_valid(rnd_a_enc@, rnd_a@, key@, iv@),
{
    match aes_decrypt(rnd_a_enc, key, iv) {
        Ok(dec) => {
            let rot = rotated_right(dec.as_slice());
            crate::registry::bytes_eq(rot.as_slice(), rnd_a)
        },
        Err(_) => false,
    }
}


/// The steps of the exchange, in the order in which they come.
#[derive(Clone, Copy, PartialEq, Eq, Structural, Debug)]
pub enum Step {
    New,
    SelectApp,
    VerifyMagic,
    GetURN,
    GetToken,
    Authenticate1,
    Authenticate2,
    Authenticate3,
}

/// What the reader reports of the card when the exchange starts.
pub struct CardInfo {
    pub card_uid: [u8; 7],
    pub key_old: Option<Vec<u8>>,
    pub key_new: Option<Vec<u8>>,
}

/// The card key that the exchange authenticates with.
pub struct KeyInfo {
    pub key_id: u8,
    pub key: Vec<u8>,
}

/// The random numbers of an authentication in progress, and the vector for
/// checking the card's last reply.
pub struct AuthInfo {
    pub rnd_a: Vec<u8>,
    pub rnd_b: Vec<u8>,
    pub iv: Vec<u8>,
}

/// A message to the reader.
#[allow(non_camel_case_types)]
pub enum CardCommand {
    message { msg_id: Option<u32>, clr_txt: Option<String>, addn_txt: Option<String> },
    sendPICC { data: String },
    haltPICC,
    Key { data: String },
    ConfirmUser,
}

/// How a step ended when it did not fail.
pub enum StepOutcome {
    /// The exchange goes on; the command, if any, is for the reader.
    NeedsMore(Option<CardCommand>),
    /// The exchange is over.
    Done,
}

/// How a step failed.
pub enum StepError {
    /// The step needs data from the reader and got none.
    InputDataRequired,
    /// The mechanism itself failed.
    Mechanism(FabFireError),
}

/// The state of one FabFire exchange.
pub struct FabFire {
    step: Step,
    card_info: Option<CardInfo>,
    key_info: Option<KeyInfo>,
    auth_info: Option<AuthInfo>,
    app_id: u32,
    local_urn: String,
}

/// A card key as the contracts see it.
pub struct KeyInfoView {
    pub key_id: u8,
    pub key: Seq<u8>,
}

/// The data of an authentication in progress as the contracts see it.
pub struct AuthInfoView {
    pub rnd_a: Seq<u8>,
    pub rnd_b: Seq<u8>,
    pub iv: Seq<u8>,
}

/// The state of an exchange as the contracts see it.
pub struct FabFireView {
    pub step: Step,
    pub card_info: Option<CardInfo>,
    pub key_info: Option<KeyInfoView>,
    pub auth_info: Option<AuthInfoView>,
    pub app_id: u32,
    pub local_urn: Seq<char>,
}

impl View for FabFire {
    type V = FabFireView;

    closed spec fn view(&self) -> FabFireView {
        FabFireView {
            step: self.step,
            card_info: self.card_info,
            key_info: match self.key_info {
                Some(k) => Some(KeyInfoView { key_id: k.key_id, key: k.key@ }),
                None => None,
            },
            auth_info: match self.auth_info {
                Some(a) => Some(AuthInfoView { rnd_a: a.rnd_a@, rnd_b: a.rnd_b@, iv: a.iv@ }),
                None => None,
            },
            app_id: self.app_id,
            local_urn: self.local_urn@,
        }
    }
}

/// What a step answers, as the contracts see it.
pub enum Reply {
    More,
    Send(Seq<char>),
    OtherCommand,
    Done,
    NeedInput,
    ParseFailed,
    SerializationFailed,
    CardFailed,
}

/// The answer a step result stands for.
pub open spec fn reply_of(r: Result<StepOutcome, StepError>) -> Reply {
    match r {
        Ok(StepOutcome::NeedsMore(None)) => Reply::More,
        Ok(StepOutcome::NeedsMore(Some(CardCommand::sendPICC { data }))) => Reply::Send(data@),
        Ok(StepOutcome::NeedsMore(Some(_))) => Reply::OtherCommand,
        Ok(StepOutcome::Done) => Reply::Done,
        Err(StepError::InputDataRequired) => Reply::NeedInput,
        Err(StepError::Mechanism(FabFireError::ParseError)) => Reply::ParseFailed,
        Err(StepError::Mechanism(FabFireError::SerializationError)) => Reply::SerializationFailed,
        Err(StepError::Mechanism(FabFireError::CardError(_))) => Reply::CardFailed,
    }
}

/// The reader's data as a sequence of bytes.
pub open spec fn input_view(input: Option<&[u8]>) -> Option<Seq<u8>> {
    match input {
        Some(b) => Some(b@),
        None => None,
    }
}

/// The data of an answer whose status word reports success.
pub open spec fn answer_data(raw: Seq<u8>) -> Option<Seq<u8>> {
    if answer_ok(raw) {
        answer_body(raw)
    } else {
        None
    }
}

/// The magic string in the first file of a FabFire card,
/// `FABACCESS\0DESFIRE\01.0\0`.
pub open spec fn magic() -> Seq<u8> {
    seq![70u8, 65, 66, 65, 67, 67, 69, 83, 83, 0, 68, 69, 83, 70, 73, 82, 69, 0, 49, 46, 48, 0]
}

/// The one token that the exchange accepts so far, `LoremIpsum`.
pub open spec fn accepted_token() -> Seq<u8> {
    seq![76u8, 111, 114, 101, 109, 73, 112, 115, 117, 109]
}

fn magic_bytes() -> (v: Vec<u8>)
    ensures
        v@ == magic(),
{
    let v: Vec<u8> = vec![70u8, 65, 66, 65, 67, 67, 69, 83, 83, 0, 68, 69, 83, 70, 73, 82, 69, 0, 49, 46, 48, 0];
    assert(v@ =~= magic());
    v
}

fn accepted_token_bytes() -> (v: Vec<u8>)
    ensures
        v@ == accepted_token(),
{
    let v: Vec<u8> = vec![76u8, 111, 114, 101, 109, 73, 112, 115, 117, 109];
    assert(v@ =~= accepted_token());
    v
}

/// `s` moved to step `step`.
pub open spec fn at_step(s: FabFireView, step: Step) -> FabFireView {
    FabFireView { step, ..s }
}

/// Sending `bytes` to the card, in upper-case hexadecimal.
pub open spec fn send(bytes: Seq<u8>) -> Reply {
    Reply::Send(hex_upper(bytes))
}

/// What a step makes of the state `s`, the reader's data `input`, that data
/// read as card information (`parsed`), and our random number `rnd_a`: the
/// next state and the answer.
pub open spec fn next_state(s: FabFireView, input: Option<Seq<u8>>, parsed: Option<CardInfo>, rnd_a: Seq<u8>) -> (FabFireView, Reply) {
    match s.step {
        Step::New => match input {
            None => (s, Reply::NeedInput),
            Some(_) => match parsed {
                None => (s, Reply::ParseFailed),
                Some(ci) => (FabFireView { step: Step::SelectApp, card_info: Some(ci), ..s }, Reply::More),
            },
        },
        Step::SelectApp => if s.app_id > 0xFFFFFF {
            (s, Reply::SerializationFailed)
        } else {
            (at_step(s, Step::VerifyMagic), send(select_application_bytes(s.app_id)))
        },
        Step::VerifyMagic => match input {
            None => (s, Reply::NeedInput),
            Some(raw) => if !answer_ok(raw) {
                (s, Reply::CardFailed)
            } else {
                (at_step(s, Step::GetURN), send(read_data_bytes(MAGIC_FILE_ID, 0, magic().len() as int)))
            },
        },
        Step::GetURN => match input {
            None => (s, Reply::NeedInput),
            Some(raw) => match answer_data(raw) {
                Some(b) if b == magic() => (
                    at_step(s, Step::GetToken),
                    send(read_data_bytes(URN_FILE_ID, 0, encode_utf8_len(s.local_urn))),
                ),
                _ => (s, Reply::ParseFailed),
            },
        },
        Step::GetToken => match input {
            None => (s, Reply::NeedInput),
            Some(raw) => match answer_data(raw) {
                Some(b) if b == vstd::utf8::encode_utf8(s.local_urn) => (
                    at_step(s, Step::Authenticate1),
                    send(read_data_bytes(TOKEN_FILE_ID, 0, TOKEN_LEN as int)),
                ),
                _ => (s, Reply::ParseFailed),
            },
        },
        Step::Authenticate1 => match input {
            None => (s, Reply::NeedInput),
            Some(raw) => match answer_data(raw) {
                Some(b) if b == accepted_token() => {
                    let key_id = s.key_info.unwrap().key_id;
                    if key_id > 0x0E {
                        (s, Reply::SerializationFailed)
                    } else {
                        (at_step(s, Step::Authenticate2), send(aes_challenge_bytes(key_id)))
                    }
                },
                _ => (s, Reply::ParseFailed),
            },
        },
        Step::Authenticate2 => match input {
            None => (s, Reply::NeedInput),
            Some(raw) => match answer_data(raw) {
                Some(b) => {
                    let key = s.key_info.unwrap().key;
                    let answer = challenge_answer(b, key, rnd_a);
                    (
                        FabFireView {
                            step: Step::Authenticate3,
                            auth_info: Some(AuthInfoView {
                                rnd_a,
                                rnd_b: aes_cbc_decrypt(b, key, zero_block()),
                                iv: answer.subrange(16, 32),
                            }),
                            ..s
                        },
                        send(case4_bytes(CARD_CLASS, ADDITIONAL_FRAME, answer)),
                    )
                },
                None => (s, Reply::ParseFailed),
            },
        },
        Step::Authenticate3 => match input {
            None => (s, Reply::NeedInput),
            Some(raw) => match answer_data(raw) {
                Some(_) if s.auth_info is Some => (s, Reply::Done),
                _ => (s, Reply::ParseFailed),
            },
        },
    }
}

/// The length of `s` in UTF-8.
pub open spec fn encode_utf8_len(s: Seq<char>) -> int {
    vstd::utf8::encode_utf8(s).len() as int
}

/// The inputs on which a step of the exchange runs to its end: an answer
/// from the card has at least its two status bytes, a URN or token is valid
/// UTF-8, and a key is at hand when the exchange comes to use it.
pub open spec fn step_allowed(s: FabFireView, input: Option<Seq<u8>>) -> bool {
    match input {
        None => true,
        Some(raw) => match s.step {
            Step::New | Step::SelectApp => true,
            Step::VerifyMagic | Step::GetURN => raw.len() >= 2,
            Step::GetToken => raw.len() >= 2 && (answer_data(raw) matches Some(b) ==> valid_utf8(b)),
            Step::Authenticate1 => raw.len() >= 2 && (answer_data(raw) matches Some(b) ==> valid_utf8(b) && (b
                == accepted_token() ==> s.key_info is Some)),
            Step::Authenticate2 => raw.len() >= 2 && (answer_data(raw) matches Some(b) ==> b.len() == 16 && (
            s.key_info matches Some(k) && k.key.len() == 16)),
            Step::Authenticate3 => raw.len() >= 2 && (answer_data(raw) is Some && s.auth_info is Some
                ==> s.key_info is Some),
        },
    }
}

fn answer_data_of(raw: &[u8]) -> (r: Option<Vec<u8>>)
    requires
        raw@.len() >= 2,
    ensures
        match r {
            Some(b) => answer_data(raw@) == Some(b@),
            None => answer_data(raw@) is None,
        },
{
    let resp = parse_answer(raw);
    match check_status(resp.sw1, resp.sw2) {
        Ok(_) => resp.body,
        Err(_) => None,
    }
}

fn send_bytes(bytes: &[u8]) -> (r: StepOutcome)
    ensures
        reply_of(Ok(r)) == send(bytes@),
{
    StepOutcome::NeedsMore(Some(CardCommand::sendPICC { data: encode_hex_upper(bytes) }))
}

fn send_built(built: Result<Vec<u8>, FabFireError>) -> (r: Result<StepOutcome, StepError>)
    ensures
        built matches Ok(v) ==> reply_of(r) == send(v@) && r is Ok,
        built matches Err(FabFireError::SerializationError) ==> reply_of(r) == Reply::SerializationFailed && r is Err,
{
    match built {
        Ok(v) => Ok(send_bytes(v.as_slice())),
        Err(e) => Err(StepError::Mechanism(e)),
    }
}

impl FabFire {
    /// A new exchange for application 1 of the card and the URN of this
    /// space.
    pub fn new_server() -> (f: FabFire)
        ensures
            f@.step == Step::New,
            f@.card_info is None,
            f@.key_info is None,
            f@.auth_info is None,
            f@.app_id == 1,
            f@.local_urn == "urn:fabaccess:lab:innovisionlab"@,
    {
        FabFire {
            step: Step::New,
            card_info: None,
            key_info: None,
            auth_info: None,
            app_id: 1,
            local_urn: String::from_str("urn:fabaccess:lab:innovisionlab"),
        }
    }

    /// Whether a step on `input` runs to its end (see `step_allowed`); on
    /// other inputs the exchange cannot go on.
    pub fn can_step(&self, input: Option<&[u8]>) -> (r: bool)
        ensures
            r == step_allowed(self@, input_view(input)),
    {
        match input {
            None => true,
            Some(raw) => match self.step {
                Step::New | Step::SelectApp => true,
                Step::VerifyMagic | Step::GetURN => raw.len() >= 2,
                _ => {
                    if raw.len() < 2 {
                        return false;
                    }
                    let data = answer_data_of(raw);
                    match self.step {
                        Step::GetToken => match &data {
                            Some(b) => utf8_valid(b.as_slice()),
                            None => true,
                        },
                        Step::Authenticate1 => match &data {
                            Some(b) => {
                                let t = accepted_token_bytes();
                                utf8_valid(b.as_slice()) && (!crate::registry::bytes_eq(
                                    b.as_slice(),
                                    t.as_slice(),
                                ) || self.key_info.is_some())
                            },
                            None => true,
                        },
                        Step::Authenticate2 => match &data {
                            Some(b) => b.len() == 16 && match &self.key_info {
                                Some(k) => k.key.len() == 16,
                                None => false,
                            },
                            None => true,
                        },
                        _ => !(data.is_some() && self.auth_info.is_some()) || self.key_info.is_some(),
                    }
                },
            },
        }
    }

    /// The step the exchange is at.
    pub fn current_step(&self) -> (s: Step)
        ensures
            s == self@.step,
    {
        self.step
    }

    /// One step of the exchange, given the reader's data (`input`) and that
    /// data read as card information where it can be (`card_info`). The
    /// random number of the challenge is drawn here; whatever it is, the step
    /// does what `next_state` says for it.
    pub fn step(&mut self, input: Option<&[u8]>, card_info: Option<CardInfo>) -> (r: Result<StepOutcome, StepError>)
        requires
            step_allowed(old(self)@, input_view(input)),
        ensures
            exists|rnd_a: Seq<u8>|
                rnd_a.len() == 16 && (final(self)@, reply_of(r)) == #[trigger] next_state(
                    old(self)@,
                    input_view(input),
                    card_info,
                    rnd_a,
                ),
    {
        let rnd_a: [u8; 16] = if self.step == Step::Authenticate2 {
            random_challenge()
        } else {
            [0u8; 16]
        };
        let r = self.step_with_challenge(input, card_info, &rnd_a);
        assert(rnd_a@.len() == 16);
        r
    }

    /// One step of the exchange, given the reader's data (`input`), that data
    /// read as card information where it can be (`card_info`), and our random
    /// number for the challenge (`rnd_a`).
    pub fn step_with_challenge(&mut self, input: Option<&[u8]>, card_info: Option<CardInfo>, rnd_a: &[u8]) -> (r: Result<StepOutcome, StepError>)
        requires
            step_allowed(old(self)@, input_view(input)),
            rnd_a@.len() == 16,
        ensures
            (final(self)@, reply_of(r)) == next_state(old(self)@, input_view(input), card_info, rnd_a@),
    {
        match self.step {
            Step::New => match input {
                None => Err(StepError::InputDataRequired),
                Some(_) => match card_info {
                    None => Err(StepError::Mechanism(FabFireError::ParseError)),
                    Some(ci) => {
                        self.card_info = Some(ci);
                        self.step = Step::SelectApp;
                        Ok(StepOutcome::NeedsMore(None))
                    },
                },
            },
            Step::SelectApp => {
                let r = send_built(select_application_command(self.app_id));
                if r.is_ok() {
                    self.step = Step::VerifyMagic;
                }
                r
            },
            Step::VerifyMagic => match input {
                None => Err(StepError::InputDataRequired),
                Some(raw) => {
                    let resp = parse_answer(raw);
                    match check_status(resp.sw1, resp.sw2) {
                        Err(e) => Err(StepError::Mechanism(FabFireError::CardError(e))),
                        Ok(_) => {
                            let r = send_built(read_data_command(MAGIC_FILE_ID, 0, 22));
                            self.step = Step::GetURN;
                            r
                        },
                    }
                },
            },
            Step::GetURN => match input {
                None => Err(StepError::InputDataRequired),
                Some(raw) => match answer_data_of(raw) {
                    Some(b) => {
                        let m = magic_bytes();
                        if !crate::registry::bytes_eq(b.as_slice(), m.as_slice()) {
                            return Err(StepError::Mechanism(FabFireError::ParseError));
                        }
                        let n = self.local_urn.as_str().as_bytes().len();
                        let r = send_built(read_data_command(URN_FILE_ID, 0, n));
                        self.step = Step::GetToken;
                        r
                    },
                    None => Err(StepError::Mechanism(FabFireError::ParseError)),
                },
            },
            Step::GetToken => match input {
                None => Err(StepError::InputDataRequired),
                Some(raw) => match answer_data_of(raw) {
                    Some(b) => {
                        if !crate::registry::bytes_eq(b.as_slice(), self.local_urn.as_str().as_bytes()) {
                            return Err(StepError::Mechanism(FabFireError::ParseError));
                        }
                        let r = send_built(read_data_command(TOKEN_FILE_ID, 0, TOKEN_LEN));
                        self.step = Step::Authenticate1;
                        r
                    },
                    None => Err(StepError::Mechanism(FabFireError::ParseError)),
                },
            },
            Step::Authenticate1 => match input {
                None => Err(StepError::InputDataRequired),
                Some(raw) => match answer_data_of(raw) {
                    Some(b) => {
                        let t = accepted_token_bytes();
                        if !crate::registry::bytes_eq(b.as_slice(), t.as_slice()) {
                            return Err(StepError::Mechanism(FabFireError::ParseError));
                        }
                        let key_id = self.key_info.as_ref().unwrap().key_id;
                        let r = send_built(aes_challenge_command(key_id));
                        if r.is_ok() {
                            self.step = Step::Authenticate2;
                        }
                        r
                    },
                    None => Err(StepError::Mechanism(FabFireError::ParseError)),
                },
            },
            Step::Authenticate2 => match input {
                None => Err(StepError::InputDataRequired),
                Some(raw) => match answer_data_of(raw) {
                    Some(b) => {
                        let (cmd, rnd_b, iv) = aes_response_command(
                            b.as_slice(),
                            self.key_info.as_ref().unwrap().key.as_slice(),
                            rnd_a,
                        );
                        self.auth_info = Some(AuthInfo { rnd_a: slice_to_vec(rnd_a), rnd_b, iv });
                        let out = send_bytes(cmd.as_slice());
                        self.step = Step::Authenticate3;
                        Ok(out)
                    },
                    None => Err(StepError::Mechanism(FabFireError::ParseError)),
                },
            },
            Step::Authenticate3 => match input {
                None => Err(StepError::InputDataRequired),
                Some(raw) => match answer_data_of(raw) {
                    Some(b) => match self.auth_info.as_ref() {
                        None => Err(StepError::Mechanism(FabFireError::ParseError)),
                        Some(auth) => {
                            let _verified = verify_card_answer(
                                b.as_slice(),
                                auth.rnd_a.as_slice(),
                                self.key_info.as_ref().unwrap().key.as_slice(),
                                auth.iv.as_slice(),
                            );
                            Ok(StepOutcome::Done)
                        },
                    },
                    None => Err(StepError::Mechanism(FabFireError::ParseError)),
                },
            },
        }
    }
}


/// Whether an answer reports a failure.
pub open spec fn is_failure(r: Reply) -> bool {
    match r {
        Reply::NeedInput | Reply::ParseFailed | Reply::SerializationFailed | Reply::CardFailed => true,
        _ => false,
    }
}

/// The step that follows `s` when it succeeds.
pub open spec fn successor(s: Step) -> Step {
    match s {
        Step::New => Step::SelectApp,
        Step::SelectApp => Step::VerifyMagic,
        Step::VerifyMagic => Step::GetURN,
        Step::GetURN => Step::GetToken,
        Step::GetToken => Step::Authenticate1,
        Step::Authenticate1 => Step::Authenticate2,
        Step::Authenticate2 => Step::Authenticate3,
        Step::Authenticate3 => Step::Authenticate3,
    }
}

/// A step that fails leaves the exchange as it was; one that succeeds moves
/// it to the next step and touches nothing but the step, the card
/// information (first step) and the authentication data (challenge step).
/// The exchange ends exactly at its last step.
pub proof fn law_steps_advance_in_order(
    s: FabFireView,
    input: Option<Seq<u8>>,
    parsed: Option<CardInfo>,
    rnd_a: Seq<u8>,
)
    requires
        step_allowed(s, input),
    ensures
        is_failure(next_state(s, input, parsed, rnd_a).1) ==> next_state(s, input, parsed, rnd_a).0 == s,
        !is_failure(next_state(s, input, parsed, rnd_a).1) ==> {
            let t = next_state(s, input, parsed, rnd_a).0;
            &&& t.step == successor(s.step)
            &&& t.key_info == s.key_info
            &&& t.app_id == s.app_id
            &&& t.local_urn == s.local_urn
            &&& s.step != Step::New ==> t.card_info == s.card_info
            &&& s.step != Step::Authenticate2 ==> t.auth_info == s.auth_info
        },
        next_state(s, input, parsed, rnd_a).1 == Reply::Done <==> (s.step == Step::Authenticate3
            && !is_failure(next_state(s, input, parsed, rnd_a).1)),
{
}

/// A step moves on only when the card's answer is what that step checks
/// for: the first step needs the reader's card information, the magic read
/// needs a success status, the URN read needs the magic value, the token
/// read needs this space's URN and the challenge request needs the accepted
/// token. Every step but the application selection waits for input.
pub proof fn law_steps_check_card_answers(s: FabFireView, raw: Seq<u8>, parsed: Option<CardInfo>, rnd_a: Seq<u8>)
    ensures
        s.step != Step::SelectApp ==> next_state(s, None, parsed, rnd_a) == (s, Reply::NeedInput),
        ({
            let r = next_state(s, Some(raw), parsed, rnd_a);
            &&& s.step == Step::New && !is_failure(r.1) ==> parsed is Some && r.0.card_info == parsed
            &&& s.step == Step::VerifyMagic && !is_failure(r.1) ==> answer_ok(raw)
            &&& s.step == Step::GetURN && !is_failure(r.1) ==> answer_data(raw) == Some(magic())
            &&& s.step == Step::GetToken && !is_failure(r.1) ==> answer_data(raw) == Some(
                vstd::utf8::encode_utf8(s.local_urn),
            )
            &&& s.step == Step::Authenticate1 && !is_failure(r.1) ==> answer_data(raw) == Some(accepted_token())
            &&& s.step == Step::SelectApp && s.app_id <= 0xFFFFFF ==> r.1 == send(select_application_bytes(s.app_id))
        }),
{
}

/// Only the challenge step looks at our random number.
pub proof fn law_random_number_used_only_for_challenge(
    s: FabFireView,
    input: Option<Seq<u8>>,
    parsed: Option<CardInfo>,
    a: Seq<u8>,
    b: Seq<u8>,
)
    requires
        s.step != Step::Authenticate2,
    ensures
        next_state(s, input, parsed, a) == next_state(s, input, parsed, b),
{
}

} // verus!
