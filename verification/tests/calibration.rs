use rustpad::block_size::BlockSize;
use rustpad::calibration_response::CalibrationResponse;
use rustpad::calibrator::{Calibrator, IndistinguishableResponses};
use rustpad::cypher_text::CypherText;
use rustpad::decryptor::Decryptor;
use rustpad::encoding::EncodingOption;

fn calibrator() -> Calibrator {
    let cypher_text = CypherText::parse(
        "000102030405060708090a0b0c0d0e0f101112131415161718191a1b1c1d1e1f",
        &BlockSize::Sixteen,
        false,
        &EncodingOption::Auto,
        false,
    )
    .unwrap();
    Decryptor::new_decryption_only(&cypher_text).web_calibrator()
}

fn status(code: u16) -> CalibrationResponse {
    CalibrationResponse::from_response(code, None, String::new(), None, false)
}

#[test]
fn calibration_picks_the_majority() {
    let mut responses: Vec<CalibrationResponse> = (0..256).map(|_| status(200)).collect();
    responses[77] = status(403);
    let chosen = calibrator().determine_padding_error_response(&responses).unwrap();
    assert_eq!(chosen.status(), 200);
    assert!(chosen.same_as(&status(200)));

    let mut responses: Vec<CalibrationResponse> = (0..256).map(|_| status(500)).collect();
    responses[0] = status(200);
    let chosen = calibrator().determine_padding_error_response(&responses).unwrap();
    assert_eq!(chosen.status(), 500);

    let mut responses: Vec<CalibrationResponse> = (0..256).map(|_| status(500)).collect();
    responses[255] = status(200);
    let chosen = calibrator().determine_padding_error_response(&responses).unwrap();
    assert_eq!(chosen.status(), 500);
}

#[test]
fn calibration_fails_where_all_responses_are_alike() {
    let responses: Vec<CalibrationResponse> = (0..256).map(|_| status(200)).collect();
    assert_eq!(
        calibrator().determine_padding_error_response(&responses).err(),
        Some(IndistinguishableResponses)
    );
    assert_eq!(
        calibrator().determine_padding_error_response(&[]).err(),
        Some(IndistinguishableResponses)
    );
    assert_eq!(
        calibrator().determine_padding_error_response(&[status(200)]).err(),
        Some(IndistinguishableResponses)
    );
}

#[test]
fn calibration_counts_every_part_of_a_response() {
    let error_page = |length: u64| {
        CalibrationResponse::from_response(
            200,
            None,
            format!("padding error {}", length),
            Some(length),
            true,
        )
    };
    let mut responses: Vec<CalibrationResponse> = Vec::new();
    for _ in 0..100 {
        responses.push(error_page(1));
    }
    for _ in 0..101 {
        responses.push(error_page(2));
    }
    for _ in 0..55 {
        responses.push(error_page(3));
    }
    let chosen = calibrator().determine_padding_error_response(&responses).unwrap();
    assert_eq!(chosen.content_length(), Some(2));
    assert_eq!(chosen.content().as_deref(), Some("padding error 2"));
}

#[test]
fn body_counts_only_where_it_is_considered() {
    let with_body =
        CalibrationResponse::from_response(200, None, "one".to_string(), Some(3), true);
    let other_body =
        CalibrationResponse::from_response(200, None, "two".to_string(), Some(3), true);
    assert!(!with_body.same_as(&other_body));
    assert_eq!(with_body.content().as_deref(), Some("one"));
    assert_eq!(with_body.content_length(), Some(3));

    let without_body =
        CalibrationResponse::from_response(200, None, "one".to_string(), Some(3), false);
    let other_without_body =
        CalibrationResponse::from_response(200, None, "two".to_string(), Some(7), false);
    assert!(without_body.same_as(&other_without_body));
    assert_eq!(without_body.content(), &None);
    assert_eq!(without_body.content_length(), None);
    assert!(!without_body.same_as(&with_body));
}

#[test]
fn responses_differ_by_status_and_location() {
    let plain = status(302);
    let home = CalibrationResponse::from_response(
        302,
        Some(b"/home".to_vec()),
        String::new(),
        None,
        false,
    );
    let login = CalibrationResponse::from_response(
        302,
        Some(b"/login".to_vec()),
        String::new(),
        None,
        false,
    );
    assert!(!plain.same_as(&home));
    assert!(!home.same_as(&login));
    assert!(home.same_as(&home.duplicate()));
    assert!(!status(200).same_as(&status(201)));
    assert_eq!(home.location().as_deref(), Some(&b"/home"[..]));
    let remembered = CalibrationResponse::from_parts(302, Some(b"/home".to_vec()), None, None);
    assert!(remembered.same_as(&home));
}

#[test]
fn calibration_request_tries_the_value_at_the_last_byte() {
    let calibrator = calibrator();
    assert_eq!(
        calibrator.candidate(0x7f).encode(),
        "0000000000000000000000000000007f101112131415161718191a1b1c1d1e1f"
    );
    assert_eq!(
        calibrator.candidate(0).encode(),
        "00000000000000000000000000000000101112131415161718191a1b1c1d1e1f"
    );
}
