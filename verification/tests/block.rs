use rustpad::block::{Block, ByteIndexOutOfRange};
use rustpad::block_size::BlockSize;

#[test]
fn zero_block_is_all_zero() {
    let block = Block::new(&BlockSize::Eight);
    assert_eq!(block.to_bytes(), vec![0u8; 8]);
    assert_eq!(block.block_size(), BlockSize::Eight);
    let block = Block::new(&BlockSize::Sixteen);
    assert_eq!(block.to_bytes(), vec![0u8; 16]);
    assert_eq!(block.len(), 16);
}

#[test]
fn incremental_padding_counts_down() {
    let block = Block::new_incremental_padding(&BlockSize::Eight);
    assert_eq!(block.to_bytes(), vec![8, 7, 6, 5, 4, 3, 2, 1]);
    let block = Block::new_incremental_padding(&BlockSize::Sixteen);
    assert_eq!(
        block.to_bytes(),
        vec![16, 15, 14, 13, 12, 11, 10, 9, 8, 7, 6, 5, 4, 3, 2, 1]
    );
}

#[test]
fn hex_is_lower_case() {
    let block = Block::from_bytes(&[0x00, 0x0f, 0x10, 0xab, 0xcd, 0xef, 0x7f, 0xff]);
    assert_eq!(block.to_hex(), "000f10abcdef7fff");
}

#[test]
fn block_is_made_of_eight_or_sixteen_bytes_only() {
    assert!(Block::try_from_bytes(&[1u8; 8]).is_some());
    assert!(Block::try_from_bytes(&[1u8; 16]).is_some());
    assert!(Block::try_from_bytes(&[1u8; 0]).is_none());
    assert!(Block::try_from_bytes(&[1u8; 7]).is_none());
    assert!(Block::try_from_bytes(&[1u8; 9]).is_none());
    assert!(Block::try_from_bytes(&[1u8; 17]).is_none());
    let block = Block::try_from_bytes(&[1, 2, 3, 4, 5, 6, 7, 8]).unwrap();
    assert_eq!(block.to_bytes(), vec![1, 2, 3, 4, 5, 6, 7, 8]);
    assert_eq!(block.byte(2), 3);
}

#[test]
fn set_byte_overwrites_one_byte() {
    let mut block = Block::from_bytes(&[9u8; 8]);
    block.set_byte(0, 1);
    block.set_byte(7, 200);
    block.set_byte(7, 201);
    assert_eq!(block.to_bytes(), vec![1, 9, 9, 9, 9, 9, 9, 201]);
    let mut block = Block::new(&BlockSize::Sixteen);
    block.set_byte(15, 0xff);
    assert_eq!(block.to_hex(), "000000000000000000000000000000ff");
}

#[test]
fn increment_byte_adds_one_and_wraps() {
    let mut block = Block::from_bytes(&[0, 1, 2, 3, 4, 5, 254, 255]);
    assert_eq!(block.increment_byte(0), Ok(()));
    assert_eq!(block.increment_byte(6), Ok(()));
    assert_eq!(block.increment_byte(7), Ok(()));
    assert_eq!(block.to_bytes(), vec![1, 1, 2, 3, 4, 5, 255, 0]);
    assert_eq!(
        block.increment_byte(8),
        Err(ByteIndexOutOfRange { index: 8, block_len: 8 })
    );
    assert_eq!(block.to_bytes(), vec![1, 1, 2, 3, 4, 5, 255, 0]);
}

#[test]
fn xor_twice_gives_the_block_back() {
    let a = Block::from_bytes(&[0x00, 0xff, 0x55, 0xaa, 0x12, 0x34, 0x56, 0x78]);
    let b = Block::from_bytes(&[0x0f, 0xf0, 0xff, 0x00, 0x21, 0x43, 0x65, 0x87]);
    let xored = a.xor(&b);
    assert_eq!(xored.to_bytes(), vec![0x0f, 0x0f, 0xaa, 0xaa, 0x33, 0x77, 0x33, 0xff]);
    assert!(xored.xor(&b).same_bytes(&a));
    assert!(b.xor(&a).same_bytes(&xored));
    assert!(!xored.same_bytes(&a));
}

#[test]
fn blocks_of_different_size_are_not_the_same() {
    let short = Block::new(&BlockSize::Eight);
    let long = Block::new(&BlockSize::Sixteen);
    assert!(!short.same_bytes(&long));
    assert!(short.same_bytes(&Block::from_bytes(&[0u8; 8])));
}

#[test]
fn intermediate_is_the_block_xor_the_incremental_padding() {
    let block = Block::from_bytes(&[0u8; 8]);
    assert_eq!(block.to_intermediate().to_bytes(), vec![8, 7, 6, 5, 4, 3, 2, 1]);
    let block = Block::from_bytes(&[0xff, 0x07, 0, 0, 0, 0, 0x02, 0x01]);
    assert_eq!(
        block.to_intermediate().to_bytes(),
        vec![0xf7, 0x00, 6, 5, 4, 3, 0x00, 0x00]
    );
}

#[test]
fn padding_adjustment_rewrites_the_last_bytes() {
    let block = Block::from_bytes(&[0x10, 0x20, 0x30, 0x40, 0x50, 0x60, 0x70, 0x80]);
    assert_eq!(block.to_adjusted_for_padding(0).to_bytes(), block.to_bytes());
    // last byte: 0x80 ^ 1 ^ 1
    assert_eq!(block.to_adjusted_for_padding(1).to_bytes(), block.to_bytes());
    // last two bytes: 0x70 ^ 2 ^ 2, 0x80 ^ 1 ^ 2
    assert_eq!(
        block.to_adjusted_for_padding(2).to_bytes(),
        vec![0x10, 0x20, 0x30, 0x40, 0x50, 0x60, 0x70, 0x83]
    );
    // last three bytes: 0x60 ^ 3 ^ 3, 0x70 ^ 2 ^ 3, 0x80 ^ 1 ^ 3
    assert_eq!(
        block.to_adjusted_for_padding(3).to_bytes(),
        vec![0x10, 0x20, 0x30, 0x40, 0x50, 0x60, 0x71, 0x82]
    );
    // all bytes: 0x10 ^ 8 ^ 8, 0x20 ^ 7 ^ 8, ..
    assert_eq!(
        block.to_adjusted_for_padding(8).to_bytes(),
        vec![0x10, 0x2f, 0x3e, 0x4d, 0x5c, 0x6b, 0x7a, 0x89]
    );
}

#[test]
fn adjusted_block_yields_the_padding_under_its_intermediate() {
    let wip = Block::from_bytes(&[
        0xde, 0xad, 0xbe, 0xef, 0x01, 0x23, 0x45, 0x67, 0x89, 0xab, 0xcd, 0xef, 0x10, 0x32, 0x54,
        0x76,
    ]);
    let intermediate = wip.to_intermediate();
    for pad in 1..=16u8 {
        let plain = wip.to_adjusted_for_padding(pad).xor(&intermediate).to_bytes();
        for byte in &plain[16 - pad as usize..] {
            assert_eq!(*byte, pad);
        }
    }
}

#[test]
fn ascii_shows_dots_for_what_does_not_print() {
    let block = Block::from_bytes(&[b'H', b'i', b' ', b'~', 0x1f, 0x7f, 0x80, 0xff]);
    assert_eq!(block.to_ascii(), "Hi ~....");
    let block = Block::from_bytes(&[0, 9, 10, 13, b'!', b'a', b'Z', b'0']);
    assert_eq!(block.to_ascii(), "....!aZ0");
}

#[test]
fn text_takes_each_byte_as_a_character() {
    let block = Block::from_bytes(&[b'a', b'b', 0x01, 0x00, 0x7f, 0x80, 0xe9, 0xff]);
    assert_eq!(block.to_text(), "ab\u{1}\u{0}\u{7f}\u{80}\u{e9}\u{ff}");
}
