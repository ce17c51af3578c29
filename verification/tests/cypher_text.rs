use rustpad::block::Block;
use rustpad::block_size::BlockSize;
use rustpad::codec::{SplitError, TextError};
use rustpad::cypher_text::{CypherText, ParseError, MAX_BLOCKS};
use rustpad::encoding::{Encoding, EncodingOption};
use rustpad::plain_text::PlainText;

fn parse_auto(input: &str, size: BlockSize) -> Result<CypherText, ParseError> {
    CypherText::parse(input, &size, false, &EncodingOption::Auto, false)
}

#[test]
fn parses_hex_into_blocks() {
    let parsed = parse_auto(
        "000102030405060708090a0b0c0d0e0f101112131415161718191a1b1c1d1e1f",
        BlockSize::Sixteen,
    )
    .unwrap();
    assert_eq!(parsed.amount_blocks(), 2);
    assert_eq!(parsed.block_size(), BlockSize::Sixteen);
    assert_eq!(parsed.used_encoding(), Encoding::Hex);
    assert!(!parsed.url_encoded());
    assert_eq!(parsed.blocks()[0].to_bytes(), (0..16u8).collect::<Vec<u8>>());
    assert_eq!(parsed.blocks()[1].to_bytes(), (16..32u8).collect::<Vec<u8>>());
    assert_eq!(parsed.tweakable_block().to_bytes(), (0..16u8).collect::<Vec<u8>>());

    let parsed = parse_auto(
        "000102030405060708090a0b0c0d0e0f101112131415161718191a1b1c1d1e1f",
        BlockSize::Eight,
    )
    .unwrap();
    assert_eq!(parsed.amount_blocks(), 4);
    assert_eq!(parsed.block_size(), BlockSize::Eight);
    assert_eq!(parsed.tweakable_block().to_bytes(), (16..24u8).collect::<Vec<u8>>());
}

#[test]
fn text_round_trips_in_each_encoding() {
    let inputs = [
        ("000102030405060708090a0b0c0d0e0f", Encoding::Hex, false),
        ("AAECAwQFBgcICQoLDA0ODw==", Encoding::Base64, false),
        ("AAECAwQFBgcICQoLDA0ODw%3D%3D", Encoding::Base64, true),
        ("-__-ABCDEFGHIJKLMNOPQQ==", Encoding::Base64Url, false),
        ("-__-ABCDEFGHIJKLMNOPQQ%3D%3D", Encoding::Base64Url, true),
        ("%2B%2F%2F%2BABCDEFGHIJKLMNOPQQ%3D%3D", Encoding::Base64, true),
    ];
    for (input, encoding, url_encoded) in inputs {
        let parsed = parse_auto(input, BlockSize::Eight).unwrap();
        assert_eq!(parsed.amount_blocks(), 2);
        assert_eq!(parsed.used_encoding(), encoding);
        assert_eq!(parsed.url_encoded(), url_encoded);
        assert_eq!(parsed.encode(), input);

        let again = CypherText::parse(
            &parsed.encode(),
            &BlockSize::Eight,
            false,
            &EncodingOption::from_encoding(&encoding),
            !url_encoded,
        )
        .unwrap();
        assert_eq!(again.encode(), input);
        assert_eq!(again.used_encoding(), encoding);
        for (left, right) in again.blocks().iter().zip(parsed.blocks()) {
            assert!(left.same_bytes(right));
        }
    }
}

#[test]
fn upper_case_hex_is_read_and_written_in_lower_case() {
    let parsed = parse_auto("000102030405060708090A0B0C0D0E0F", BlockSize::Eight).unwrap();
    assert_eq!(parsed.encode(), "000102030405060708090a0b0c0d0e0f");
}

#[test]
fn url_decoding_can_be_switched_off() {
    let input = "AAECAwQFBgcICQoLDA0ODw%3D%3D";
    let parsed = CypherText::parse(input, &BlockSize::Eight, false, &EncodingOption::Auto, true);
    assert!(matches!(parsed, Err(ParseError::Text(TextError::UnsupportedEncoding))));
    let parsed =
        CypherText::parse(input, &BlockSize::Eight, false, &EncodingOption::Base64, true);
    assert!(matches!(parsed, Err(ParseError::Text(TextError::InvalidBase64))));
    let parsed =
        CypherText::parse(input, &BlockSize::Eight, false, &EncodingOption::Base64, false)
            .unwrap();
    assert!(parsed.url_encoded());
}

#[test]
fn decode_finds_out_the_encoding() {
    let parsed = CypherText::decode("AAECAwQFBgcICQoLDA0ODw%3D%3D", &BlockSize::Eight).unwrap();
    assert_eq!(parsed.used_encoding(), Encoding::Base64);
    assert!(parsed.url_encoded());
    assert_eq!(parsed.amount_blocks(), 2);
    assert!(CypherText::decode("0001020304050607", &BlockSize::Eight).is_err());
}

#[test]
fn zero_block_stands_in_for_a_missing_iv() {
    let parsed =
        CypherText::parse("1011121314151617", &BlockSize::Eight, true, &EncodingOption::Hex, false)
            .unwrap();
    assert_eq!(parsed.amount_blocks(), 2);
    assert_eq!(parsed.blocks()[0].to_bytes(), vec![0u8; 8]);
    assert_eq!(parsed.blocks()[1].to_bytes(), (0x10..0x18u8).collect::<Vec<u8>>());
    assert_eq!(parsed.encode(), "00000000000000001011121314151617");
}

#[test]
fn fewer_than_two_blocks_are_refused() {
    assert!(matches!(
        parse_auto("1011121314151617", BlockSize::Eight),
        Err(ParseError::TooFewBlocks)
    ));
    assert!(matches!(parse_auto("", BlockSize::Eight), Err(ParseError::TooFewBlocks)));
    assert!(matches!(
        CypherText::parse("", &BlockSize::Eight, true, &EncodingOption::Auto, false),
        Err(ParseError::TooFewBlocks)
    ));
}

#[test]
fn length_must_be_a_multiple_of_the_block_size() {
    assert!(matches!(
        parse_auto("101112131415161718", BlockSize::Eight),
        Err(ParseError::Split(SplitError { byte_count: 9, block_size: BlockSize::Eight }))
    ));
    assert!(matches!(
        parse_auto("000102030405060708090a0b0c0d0e0f1011121314151617", BlockSize::Sixteen),
        Err(ParseError::Split(SplitError { byte_count: 24, block_size: BlockSize::Sixteen }))
    ));
}

#[test]
fn undecodable_text_is_refused() {
    assert!(matches!(
        parse_auto("not a cypher text", BlockSize::Eight),
        Err(ParseError::Text(TextError::UnsupportedEncoding))
    ));
    assert!(matches!(
        CypherText::parse("zz", &BlockSize::Eight, false, &EncodingOption::Hex, false),
        Err(ParseError::Text(TextError::InvalidHex))
    ));
}

#[test]
fn cypher_text_is_made_of_blocks_of_one_size() {
    let eight = Block::from_bytes(&[1u8; 8]);
    let sixteen = Block::from_bytes(&[2u8; 16]);
    assert!(CypherText::from_iter(&[eight], false, Encoding::Hex).is_none());
    assert!(CypherText::from_iter(&[], false, Encoding::Hex).is_none());
    assert!(CypherText::from_iter(&[eight, sixteen], false, Encoding::Hex).is_none());
    assert!(CypherText::from_iter(&[sixteen, sixteen, eight], false, Encoding::Hex).is_none());
    let made = CypherText::from_iter(&[eight, eight], true, Encoding::Base64Url).unwrap();
    assert_eq!(made.amount_blocks(), 2);
    assert!(made.url_encoded());
    assert_eq!(made.used_encoding(), Encoding::Base64Url);
    assert_eq!(made.encode(), "AQEBAQEBAQEBAQEBAQEBAQ%3D%3D");

    let other = made.clone_with_blocks(vec![sixteen, sixteen, sixteen]).unwrap();
    assert_eq!(other.amount_blocks(), 3);
    assert!(other.url_encoded());
    assert_eq!(other.used_encoding(), Encoding::Base64Url);
    assert!(made.clone_with_blocks(vec![sixteen]).is_none());
    assert!(MAX_BLOCKS >= 2);
}

#[test]
fn plain_text_is_padded_to_whole_blocks() {
    let plain = PlainText::new("attacker-chosen", &BlockSize::Sixteen);
    assert_eq!(plain.amount_blocks(), 1);
    assert_eq!(plain.block_size(), BlockSize::Sixteen);
    assert_eq!(plain.blocks()[0].to_bytes(), b"attacker-chosen\x01".to_vec());

    let plain = PlainText::new("attacker-chosen", &BlockSize::Eight);
    assert_eq!(plain.amount_blocks(), 2);
    assert_eq!(plain.blocks()[0].to_bytes(), b"attacker".to_vec());
    assert_eq!(plain.blocks()[1].to_bytes(), b"-chosen\x01".to_vec());
}

#[test]
fn full_block_of_plain_text_gets_a_block_of_padding() {
    let plain = PlainText::new("0123456789abcdef", &BlockSize::Sixteen);
    assert_eq!(plain.amount_blocks(), 2);
    assert_eq!(plain.blocks()[0].to_bytes(), b"0123456789abcdef".to_vec());
    assert_eq!(plain.blocks()[1].to_bytes(), vec![16u8; 16]);

    let plain = PlainText::new("", &BlockSize::Eight);
    assert_eq!(plain.amount_blocks(), 1);
    assert_eq!(plain.blocks()[0].to_bytes(), vec![8u8; 8]);

    let plain = PlainText::new("a", &BlockSize::Eight);
    assert_eq!(plain.blocks()[0].to_bytes(), vec![b'a', 7, 7, 7, 7, 7, 7, 7]);
}

#[test]
fn plain_text_is_padded_by_bytes_not_by_characters() {
    let plain = PlainText::new("h\u{e9}llo w\u{f6}rld", &BlockSize::Eight);
    assert_eq!(plain.amount_blocks(), 2);
    let mut expected = "h\u{e9}llo w\u{f6}rld".as_bytes().to_vec();
    assert_eq!(expected.len(), 13);
    expected.extend(vec![3u8; 3]);
    let bytes: Vec<u8> = plain.blocks().iter().flat_map(|block| block.to_bytes()).collect();
    assert_eq!(bytes, expected);
}

#[test]
fn decoded_bytes_are_cut_into_a_cypher_text() {
    let bytes: Vec<u8> = (0..32u8).collect();
    let made = CypherText::from_bytes(&bytes, &BlockSize::Sixteen, false, true, Encoding::Base64)
        .unwrap();
    assert_eq!(made.amount_blocks(), 2);
    assert!(made.url_encoded());
    assert_eq!(made.used_encoding(), Encoding::Base64);
    assert_eq!(made.blocks()[1].to_bytes(), (16..32u8).collect::<Vec<u8>>());

    let made =
        CypherText::from_bytes(&bytes, &BlockSize::Sixteen, true, false, Encoding::Hex).unwrap();
    assert_eq!(made.amount_blocks(), 3);
    assert_eq!(made.blocks()[0].to_bytes(), vec![0u8; 16]);

    assert!(matches!(
        CypherText::from_bytes(&bytes[..16], &BlockSize::Sixteen, false, false, Encoding::Hex),
        Err(ParseError::TooFewBlocks)
    ));
    assert!(matches!(
        CypherText::from_bytes(&bytes[..20], &BlockSize::Sixteen, true, false, Encoding::Hex),
        Err(ParseError::Split(SplitError { byte_count: 20, block_size: BlockSize::Sixteen }))
    ));
    assert!(matches!(
        CypherText::from_bytes(&[], &BlockSize::Eight, true, false, Encoding::Hex),
        Err(ParseError::TooFewBlocks)
    ));
}
