use johnbox::entropy::random;
use johnbox::room_id;
use johnbox::code::{to_ascii_uppercase, ALPHA_CAPITAL};
use johnbox::token::decode;
use johnbox::Token;

const BYTES: [u8; 12] = [0x00, 0x01, 0x0a, 0x10, 0x7f, 0x80, 0x9f, 0xa0, 0xab, 0xcd, 0xef, 0xff];
const TEXT: &str = "00010a107f809fa0abcdefff";

#[test]
fn token_is_written_in_lower_case_hex() {
    let token = Token::from(BYTES);
    assert_eq!(token.0, BYTES);
    assert_eq!(token.to_lower_hex(), TEXT);
    assert_eq!(token.to_string(), TEXT);
    assert_eq!(token.serialize(), TEXT);
}

#[test]
fn token_is_read_back() {
    assert_eq!(Token::deserialize(TEXT).unwrap().0, BYTES);
    for seed in 0..50 {
        let token = Token::from_seed(seed);
        assert_eq!(Token::deserialize(&token.serialize()).unwrap().0, token.0);
    }
}

#[test]
fn upper_case_is_read_alike() {
    assert_eq!(Token::deserialize("00010A107F809FA0ABCDEFFF").unwrap().0, BYTES);
}

#[test]
fn plus_sign_may_stand_before_one_digit() {
    let token = Token::deserialize("+f+00000000000000000000a").unwrap();
    assert_eq!(token.0, [15, 0, 0, 0, 0, 0, 0, 0, 0, 0, 0, 10]);
}

#[test]
fn last_digit_may_stand_alone() {
    let token = Token::deserialize("00010a107f809fa0abcdeff").unwrap();
    assert_eq!(token.0[10], 0xef);
    assert_eq!(token.0[11], 0x0f);
}

#[test]
fn rest_of_text_is_not_looked_at() {
    let text = format!("{}zz\u{e9}", TEXT);
    assert_eq!(Token::deserialize(&text).unwrap().0, BYTES);
}

#[test]
fn first_pair_that_is_no_number_is_named() {
    let error = Token::deserialize("00zz0a107f809fa0abcdefgg").unwrap_err();
    assert_eq!(error.index, 1);
    assert_eq!(error.chunk, b"zz");
    let error = Token::deserialize("0001-5").unwrap_err();
    assert_eq!(error.index, 2);
    assert_eq!(error.chunk, b"-5");
    let error = Token::deserialize("++").unwrap_err();
    assert_eq!(error.index, 0);
    let error = Token::deserialize("00+").unwrap_err();
    assert_eq!(error.index, 1);
    assert_eq!(error.chunk, b"+");
    let error = Token::deserialize("0 0").unwrap_err();
    assert_eq!(error.chunk, b"0 ");
}

#[test]
fn pairs_are_pairs_of_bytes() {
    let error = Token::deserialize("0\u{e9}").unwrap_err();
    assert_eq!(error.index, 0);
    assert_eq!(error.chunk, vec![b'0', 0xc3]);
}

#[test]
fn short_text_is_read_as_far_as_it_goes() {
    let read = decode("0aff3").unwrap();
    assert_eq!(read.len, 3);
    assert_eq!(read.bytes, [0x0a, 0xff, 3, 0, 0, 0, 0, 0, 0, 0, 0, 0]);
    assert_eq!(decode("").unwrap().len, 0);
    assert_eq!(decode(TEXT).unwrap().len, 12);
    assert_eq!(decode("0aff3x").unwrap_err().index, 2);
}

#[test]
fn seeded_tokens_are_those_of_the_generator() {
    assert_eq!(Token::from_seed(0).to_string(), "a3da5346582b9273dd4a2bb8");
    assert_eq!(Token::from_seed(1).to_string(), "e48df77f6502179ab827c1da");
    assert_eq!(Token::from_seed(42).to_string(), "c152949d40d409698fa64861");
    assert_eq!(Token::from_seed(42).0, Token::from_seed(42).0);
}

#[test]
fn random_tokens_differ() {
    assert_ne!(Token::random().0, Token::random().0);
    assert_ne!(Token::random().0, [0u8; 12]);
}

#[test]
fn random_bytes_are_as_many_as_asked_for() {
    assert_eq!(random(0).len(), 0);
    let bytes = random(64);
    assert_eq!(bytes.len(), 64);
    assert_ne!(bytes, vec![0u8; 64]);
}

#[test]
fn room_code_is_four_capital_letters() {
    let mut codes: Vec<String> = Vec::new();
    for _ in 0..200 {
        let code = room_id();
        assert_eq!(code.len(), 4);
        assert!(code.chars().all(|c| ALPHA_CAPITAL.contains(&c)));
        assert_eq!(to_ascii_uppercase(&code), code);
        codes.push(code);
    }
    assert!(codes.iter().any(|code| *code != codes[0]));
}

#[test]
fn only_ascii_letters_change_case() {
    assert_eq!(to_ascii_uppercase("abYz09-\u{e9}\u{df}{`"), "ABYZ09-\u{e9}\u{df}{`");
}
