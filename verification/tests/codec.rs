use rustpad::block::Block;
use rustpad::block_size::BlockSize;
use rustpad::codec::{decode, encode, join_blocks, split_into_blocks, SplitError, TextError};
use rustpad::encoding::{Encoding, EncodingError, EncodingOption};

#[test]
fn auto_tries_hex_first() {
    // valid hex and valid base64 at once
    assert_eq!(
        decode("abcd", &EncodingOption::Auto),
        Ok((vec![0xab, 0xcd], Encoding::Hex))
    );
    assert_eq!(
        decode("ABCD", &EncodingOption::Auto),
        Ok((vec![0xab, 0xcd], Encoding::Hex))
    );
    assert_eq!(
        decode("aBcDeF0123456789", &EncodingOption::Auto),
        Ok((vec![0xab, 0xcd, 0xef, 0x01, 0x23, 0x45, 0x67, 0x89], Encoding::Hex))
    );
    assert_eq!(decode("", &EncodingOption::Auto), Ok((vec![], Encoding::Hex)));
}

#[test]
fn auto_tries_base64_before_url_safe_base64() {
    assert_eq!(
        decode("aGVsbG8=", &EncodingOption::Auto),
        Ok((b"hello".to_vec(), Encoding::Base64))
    );
    assert_eq!(
        decode("+//+AAAAAAA=", &EncodingOption::Auto),
        Ok((vec![0xfb, 0xff, 0xfe, 0, 0, 0, 0, 0], Encoding::Base64))
    );
    assert_eq!(
        decode("-__-AAAAAAA=", &EncodingOption::Auto),
        Ok((vec![0xfb, 0xff, 0xfe, 0, 0, 0, 0, 0], Encoding::Base64Url))
    );
    // an odd number of hexadecimal digits is no hexadecimal, but base64 without padding
    assert_eq!(
        decode("abc", &EncodingOption::Auto),
        Ok((vec![0x69, 0xb7], Encoding::Base64))
    );
}

#[test]
fn auto_fails_on_what_no_encoding_reads() {
    assert_eq!(decode("####", &EncodingOption::Auto), Err(TextError::UnsupportedEncoding));
    assert_eq!(decode("a", &EncodingOption::Auto), Err(TextError::UnsupportedEncoding));
    // excess bits in the last symbol
    assert_eq!(decode("iYV=", &EncodingOption::Auto), Err(TextError::UnsupportedEncoding));
    assert_eq!(decode("h\u{e9}llo", &EncodingOption::Auto), Err(TextError::UnsupportedEncoding));
}

#[test]
fn forced_encoding_is_enforced() {
    assert_eq!(
        decode("abcd", &EncodingOption::Base64),
        Ok((vec![0x69, 0xb7, 0x1d], Encoding::Base64))
    );
    assert_eq!(
        decode("abcd", &EncodingOption::Base64Url),
        Ok((vec![0x69, 0xb7, 0x1d], Encoding::Base64Url))
    );
    assert_eq!(decode("abcd", &EncodingOption::Hex), Ok((vec![0xab, 0xcd], Encoding::Hex)));
    assert_eq!(decode("abc", &EncodingOption::Hex), Err(TextError::InvalidHex));
    assert_eq!(decode("abcg", &EncodingOption::Hex), Err(TextError::InvalidHex));
    assert_eq!(decode("aGVsbG8=", &EncodingOption::Hex), Err(TextError::InvalidHex));
    assert_eq!(decode("-__-", &EncodingOption::Base64), Err(TextError::InvalidBase64));
    assert_eq!(decode("+//+", &EncodingOption::Base64Url), Err(TextError::InvalidBase64Url));
    assert_eq!(decode("aGVsbG8", &EncodingOption::Base64), Ok((b"hello".to_vec(), Encoding::Base64)));
    assert_eq!(decode("a", &EncodingOption::Base64), Err(TextError::InvalidBase64));
    assert_eq!(decode("iYV=", &EncodingOption::Base64), Err(TextError::InvalidBase64));
    assert_eq!(decode("iYU=", &EncodingOption::Base64), Ok((vec![137, 133], Encoding::Base64)));
}

#[test]
fn encodes_in_each_encoding() {
    let bytes = [0xfb, 0xff, 0xfe, 0x00, 0x10, 0x83, 0x10, 0x51];
    assert_eq!(encode(&bytes, &Encoding::Hex, false), "fbfffe0010831051");
    assert_eq!(encode(&bytes, &Encoding::Hex, true), "fbfffe0010831051");
    assert_eq!(encode(&bytes, &Encoding::Base64, false), "+//+ABCDEFE=");
    assert_eq!(encode(&bytes, &Encoding::Base64Url, false), "-__-ABCDEFE=");
    assert_eq!(encode(&bytes, &Encoding::Base64, true), "%2B%2F%2F%2BABCDEFE%3D");
    assert_eq!(encode(&bytes, &Encoding::Base64Url, true), "-__-ABCDEFE%3D");
    assert_eq!(encode(&[], &Encoding::Base64, true), "");
    assert_eq!(encode(b"hello", &Encoding::Base64, false), "aGVsbG8=");
}

#[test]
fn encoded_text_decodes_to_the_same_bytes() {
    let bytes: Vec<u8> = (0..=255u8).collect();
    for encoding in [Encoding::Hex, Encoding::Base64, Encoding::Base64Url] {
        let text = encode(&bytes, &encoding, false);
        assert_eq!(
            decode(&text, &EncodingOption::from_encoding(&encoding)),
            Ok((bytes.clone(), encoding))
        );
    }
}

#[test]
fn splits_into_blocks_of_the_size() {
    let bytes: Vec<u8> = (0..32u8).collect();
    let blocks = split_into_blocks(&bytes, BlockSize::Sixteen).unwrap();
    assert_eq!(blocks.len(), 2);
    assert_eq!(blocks[0].to_bytes(), (0..16u8).collect::<Vec<u8>>());
    assert_eq!(blocks[1].to_bytes(), (16..32u8).collect::<Vec<u8>>());
    let blocks = split_into_blocks(&bytes, BlockSize::Eight).unwrap();
    assert_eq!(blocks.len(), 4);
    assert_eq!(blocks[3].to_bytes(), (24..32u8).collect::<Vec<u8>>());
    assert_eq!(blocks[3].block_size(), BlockSize::Eight);
    assert_eq!(split_into_blocks(&[], BlockSize::Eight).unwrap().len(), 0);
}

#[test]
fn refuses_bytes_that_fill_no_whole_blocks() {
    assert_eq!(
        split_into_blocks(&[0u8; 15], BlockSize::Sixteen).err(),
        Some(SplitError { byte_count: 15, block_size: BlockSize::Sixteen })
    );
    assert_eq!(
        split_into_blocks(&[0u8; 24], BlockSize::Sixteen).err(),
        Some(SplitError { byte_count: 24, block_size: BlockSize::Sixteen })
    );
    assert_eq!(
        split_into_blocks(&[0u8; 1], BlockSize::Eight).err(),
        Some(SplitError { byte_count: 1, block_size: BlockSize::Eight })
    );
    assert!(split_into_blocks(&[0u8; 24], BlockSize::Eight).is_ok());
}

#[test]
fn joining_undoes_splitting() {
    let bytes: Vec<u8> = (100..148u8).collect();
    let blocks = split_into_blocks(&bytes, BlockSize::Sixteen).unwrap();
    assert_eq!(join_blocks(&blocks, BlockSize::Sixteen), bytes);
    let blocks = vec![Block::from_bytes(&[1u8; 8]), Block::from_bytes(&[2u8; 8])];
    let mut expected = vec![1u8; 8];
    expected.extend(vec![2u8; 8]);
    assert_eq!(join_blocks(&blocks, BlockSize::Eight), expected);
    assert_eq!(join_blocks(&[], BlockSize::Eight), Vec::<u8>::new());
}

#[test]
fn encoding_is_read_from_its_name() {
    assert_eq!(Encoding::parse("hex"), Ok(Encoding::Hex));
    assert_eq!(Encoding::parse("base64"), Ok(Encoding::Base64));
    assert_eq!(Encoding::parse("base64url"), Ok(Encoding::Base64Url));
    assert_eq!(Encoding::parse("HEX"), Err(EncodingError::UnknownName));
    assert_eq!(Encoding::parse("auto"), Err(EncodingError::UnknownName));
    assert_eq!(Encoding::parse(""), Err(EncodingError::UnknownName));
    assert_eq!(Encoding::Hex.name(), "hex");
    assert_eq!(Encoding::Base64.name(), "base64");
    assert_eq!(Encoding::Base64Url.name(), "base64url");
}

#[test]
fn encoding_option_is_read_whatever_the_case() {
    assert_eq!(EncodingOption::parse("auto"), Ok(EncodingOption::Auto));
    assert_eq!(EncodingOption::parse("AUTO"), Ok(EncodingOption::Auto));
    assert_eq!(EncodingOption::parse("Hex"), Ok(EncodingOption::Hex));
    assert_eq!(EncodingOption::parse("BASE64"), Ok(EncodingOption::Base64));
    assert_eq!(EncodingOption::parse("Base64Url"), Ok(EncodingOption::Base64Url));
    assert_eq!(EncodingOption::parse("base32"), Err(EncodingError::UnknownName));
    assert_eq!(EncodingOption::parse(" hex"), Err(EncodingError::UnknownName));
    assert_eq!(EncodingOption::from_lowercase("HEX"), Err(EncodingError::UnknownName));
    assert_eq!(
        EncodingOption::variants(),
        vec![
            EncodingOption::Auto,
            EncodingOption::Hex,
            EncodingOption::Base64,
            EncodingOption::Base64Url
        ]
    );
    let names: Vec<&str> = EncodingOption::variants().iter().map(|option| option.name()).collect();
    assert_eq!(names, vec!["auto", "hex", "base64", "base64url"]);
}

#[test]
fn auto_fixes_no_encoding() {
    assert_eq!(Encoding::try_from_option(&EncodingOption::Hex), Ok(Encoding::Hex));
    assert_eq!(Encoding::try_from_option(&EncodingOption::Base64), Ok(Encoding::Base64));
    assert_eq!(Encoding::try_from_option(&EncodingOption::Base64Url), Ok(Encoding::Base64Url));
    assert_eq!(
        Encoding::try_from_option(&EncodingOption::Auto),
        Err(EncodingError::AutoIsNotSpecific)
    );
}
