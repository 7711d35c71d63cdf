//! Tests of the external-process line protocol.

use dilemma::protocol::{format_request, parse_response, ProtocolError};
use dilemma::rules::Choice;

#[test]
fn fresh_match_request_has_empty_histories() {
    let request = format_request(&vec![], &vec![]);
    assert_eq!(request, b"0;;\n".to_vec());
}

#[test]
fn request_renders_lengths_and_letters() {
    let own = vec![Choice::Cooperate, Choice::Defect, Choice::Cooperate];
    let their = vec![Choice::Defect, Choice::Defect, Choice::Defect];
    assert_eq!(format_request(&own, &their), b"3;CDC;DDD\n".to_vec());
}

#[test]
fn request_renders_multi_digit_lengths() {
    let own = vec![Choice::Defect; 12];
    let their = vec![Choice::Cooperate; 12];
    assert_eq!(format_request(&own, &their), b"12;DDDDDDDDDDDD;CCCCCCCCCCCC\n".to_vec());
}

#[test]
fn single_letter_responses_parse() {
    assert_eq!(parse_response(&b"C\n".to_vec()), Ok(Choice::Cooperate));
    assert_eq!(parse_response(&b"D\n".to_vec()), Ok(Choice::Defect));
    assert_eq!(parse_response(&b"  D \r\n".to_vec()), Ok(Choice::Defect));
    assert_eq!(parse_response(&b"C".to_vec()), Ok(Choice::Cooperate));
}

#[test]
fn unknown_letter_is_a_protocol_violation() {
    // A fresh-match response of "X" must error out, never default.
    assert_eq!(
        parse_response(&b"X\n".to_vec()),
        Err(ProtocolError::InvalidResponse)
    );
}

#[test]
fn empty_and_multi_letter_responses_are_violations() {
    assert_eq!(parse_response(&b"".to_vec()), Err(ProtocolError::InvalidResponse));
    assert_eq!(parse_response(&b"   \n".to_vec()), Err(ProtocolError::InvalidResponse));
    assert_eq!(parse_response(&b"CD\n".to_vec()), Err(ProtocolError::InvalidResponse));
    assert_eq!(parse_response(&b"C D\n".to_vec()), Err(ProtocolError::InvalidResponse));
    assert_eq!(parse_response(&b"c\n".to_vec()), Err(ProtocolError::InvalidResponse));
}
