use rustpad::block::Block;
use rustpad::block_size::BlockSize;
use rustpad::dashboard::{min_width_for_horizontal_layout, Dashboard};
use rustpad::ui_event::{UiControlEvent, UiDecryptionEvent, UiEncryptionEvent, UiEvent};

fn block(byte: u8) -> Block {
    Block::from_bytes(&[byte; 8])
}

fn hex(blocks: &[Block]) -> Vec<String> {
    blocks.iter().map(|block| block.to_hex()).collect()
}

#[test]
fn dashboard_starts_empty() {
    let dashboard = Dashboard::new();
    assert_eq!(dashboard.cypher_text_blocks().len(), 0);
    assert_eq!(dashboard.forged_blocks().len(), 0);
    assert_eq!(dashboard.intermediate_blocks().len(), 0);
    assert_eq!(dashboard.plain_text_blocks().len(), 0);
    assert_eq!(dashboard.progress(), 0);
    assert_eq!(dashboard.exit_code(), 0);
    assert!(!dashboard.slow_redraw());
    assert_eq!(dashboard.selected(), None);
    assert!(dashboard.print_after_exit().is_empty());
    assert_eq!(min_width_for_horizontal_layout(&BlockSize::Eight), 96);
    assert_eq!(min_width_for_horizontal_layout(&BlockSize::Sixteen), 192);
}

#[test]
fn dashboard_shows_a_decryption() {
    let mut dashboard = Dashboard::new();
    dashboard.handle_application_event(UiEvent::Decryption(UiDecryptionEvent::InitDecryption(
        vec![block(0x11), block(0x22), block(0x33)],
    )));
    assert_eq!(
        hex(dashboard.cypher_text_blocks()),
        vec!["1111111111111111", "2222222222222222", "3333333333333333"]
    );
    assert_eq!(hex(dashboard.forged_blocks()), vec!["0000000000000000"; 3]);
    assert_eq!(hex(dashboard.intermediate_blocks()), vec!["0000000000000000"; 3]);
    assert_eq!(hex(dashboard.plain_text_blocks()), vec!["0000000000000000"; 3]);

    dashboard.handle_application_event(UiEvent::Decryption(UiDecryptionEvent::BlockSolved(
        block(0xf0),
        2,
    )));
    assert_eq!(
        hex(dashboard.forged_blocks()),
        vec!["0000000000000000", "f0f0f0f0f0f0f0f0", "0000000000000000"]
    );
    // 0xf0 ^ [8, 7, .., 1]
    assert_eq!(
        hex(dashboard.intermediate_blocks()),
        vec!["0000000000000000", "0000000000000000", "f8f7f6f5f4f3f2f1"]
    );
    // .. ^ 0x22
    assert_eq!(
        hex(dashboard.plain_text_blocks()),
        vec!["0000000000000000", "0000000000000000", "dad5d4d7d6d1d0d3"]
    );

    dashboard.handle_application_event(UiEvent::Decryption(UiDecryptionEvent::BlockWip(
        block(0x01),
        1,
    )));
    assert_eq!(
        hex(dashboard.forged_blocks()),
        vec!["0101010101010101", "f0f0f0f0f0f0f0f0", "0000000000000000"]
    );
    assert_eq!(dashboard.intermediate_blocks()[1].to_hex(), "0906070405020300");
    assert_eq!(dashboard.plain_text_blocks()[1].to_hex(), "1817161514131211");
}

#[test]
fn dashboard_passes_over_what_it_cannot_show() {
    let mut dashboard = Dashboard::new();
    dashboard.handle_decryption_event(UiDecryptionEvent::BlockSolved(block(1), 1));
    assert_eq!(dashboard.forged_blocks().len(), 0);
    dashboard.handle_decryption_event(UiDecryptionEvent::InitDecryption(vec![
        block(0x11),
        block(0x22),
    ]));
    dashboard.handle_decryption_event(UiDecryptionEvent::BlockSolved(block(1), 0));
    dashboard.handle_decryption_event(UiDecryptionEvent::BlockSolved(block(1), 2));
    dashboard.handle_decryption_event(UiDecryptionEvent::BlockWip(
        Block::from_bytes(&[1u8; 16]),
        1,
    ));
    dashboard.handle_encryption_event(UiEncryptionEvent::BlockSolved(block(1), 7));
    assert_eq!(hex(dashboard.forged_blocks()), vec!["0000000000000000"; 2]);
    assert_eq!(hex(dashboard.plain_text_blocks()), vec!["0000000000000000"; 2]);
    dashboard.handle_decryption_event(UiDecryptionEvent::InitDecryption(vec![]));
    assert_eq!(dashboard.cypher_text_blocks().len(), 0);
    assert_eq!(dashboard.plain_text_blocks().len(), 0);
}

#[test]
fn dashboard_shows_an_encryption() {
    let mut dashboard = Dashboard::new();
    dashboard.handle_application_event(UiEvent::Encryption(UiEncryptionEvent::InitEncryption(
        vec![block(0x41), block(0x42)],
        block(0x99),
    )));
    assert_eq!(
        hex(dashboard.plain_text_blocks()),
        vec!["0000000000000000", "4141414141414141", "4242424242424242"]
    );
    assert_eq!(
        hex(dashboard.cypher_text_blocks()),
        vec!["0000000000000000", "0000000000000000", "9999999999999999"]
    );
    assert_eq!(hex(dashboard.forged_blocks()), vec!["0000000000000000"; 3]);
    assert_eq!(hex(dashboard.intermediate_blocks()), vec!["0000000000000000"; 3]);

    dashboard.handle_application_event(UiEvent::Encryption(UiEncryptionEvent::BlockSolved(
        block(0xf0),
        2,
    )));
    assert_eq!(dashboard.intermediate_blocks()[2].to_hex(), "f8f7f6f5f4f3f2f1");
    assert_eq!(dashboard.forged_blocks()[1].to_hex(), "f0f0f0f0f0f0f0f0");
    // intermediate ^ 0x42
    assert_eq!(dashboard.cypher_text_blocks()[1].to_hex(), "bab5b4b7b6b1b0b3");
    assert_eq!(dashboard.cypher_text_blocks()[2].to_hex(), "9999999999999999");

    dashboard.handle_application_event(UiEvent::Encryption(UiEncryptionEvent::BlockWip(
        block(0x00),
        1,
    )));
    assert_eq!(dashboard.intermediate_blocks()[1].to_hex(), "0807060504030201");
    assert_eq!(dashboard.cypher_text_blocks()[0].to_hex(), "4946474445424340");
}

#[test]
fn dashboard_counts_progress() {
    let mut dashboard = Dashboard::new();
    dashboard.handle_control_event(UiControlEvent::IndicateWork(48));
    assert_eq!(dashboard.progress(), 0);
    dashboard.handle_control_event(UiControlEvent::ProgressUpdate(1));
    assert_eq!(dashboard.progress(), 2);
    dashboard.handle_control_event(UiControlEvent::ProgressUpdate(15));
    assert_eq!(dashboard.progress(), 33);
    dashboard.handle_control_event(UiControlEvent::ProgressUpdate(16));
    assert_eq!(dashboard.progress(), 66);
    dashboard.handle_control_event(UiControlEvent::ProgressUpdate(15));
    assert_eq!(dashboard.progress(), 97);
    dashboard.handle_control_event(UiControlEvent::ProgressUpdate(1));
    assert_eq!(dashboard.progress(), 100);
    dashboard.handle_control_event(UiControlEvent::ProgressUpdate(usize::MAX));
    assert_eq!(dashboard.progress(), 100);
    dashboard.handle_control_event(UiControlEvent::IndicateWork(0));
    assert_eq!(dashboard.progress(), 100);
}

#[test]
fn dashboard_keeps_what_to_print_and_how_to_end() {
    let mut dashboard = Dashboard::new();
    dashboard.handle_application_event(UiEvent::Control(UiControlEvent::PrintAfterExit(
        "first".to_string(),
    )));
    dashboard.handle_application_event(UiEvent::Control(UiControlEvent::ExitCode(3)));
    dashboard.handle_application_event(UiEvent::Control(UiControlEvent::PrintAfterExit(
        "second".to_string(),
    )));
    dashboard.handle_application_event(UiEvent::Control(UiControlEvent::SlowRedraw));
    assert_eq!(dashboard.print_after_exit(), &vec!["first".to_string(), "second".to_string()]);
    assert_eq!(dashboard.exit_code(), 3);
    assert!(dashboard.slow_redraw());
}

#[test]
fn dashboard_selection_stays_within_the_blocks() {
    let mut dashboard = Dashboard::new();
    dashboard.handle_decryption_event(UiDecryptionEvent::InitDecryption(vec![
        block(1),
        block(2),
        block(3),
    ]));
    dashboard.select_previous();
    assert_eq!(dashboard.selected(), Some(0));
    dashboard.select_previous();
    assert_eq!(dashboard.selected(), Some(0));
    dashboard.select_next();
    assert_eq!(dashboard.selected(), Some(1));
    dashboard.select_next();
    assert_eq!(dashboard.selected(), Some(2));
    dashboard.select_next();
    assert_eq!(dashboard.selected(), Some(2));
    dashboard.select_previous();
    assert_eq!(dashboard.selected(), Some(1));

    let mut dashboard = Dashboard::new();
    dashboard.select_next();
    assert_eq!(dashboard.selected(), Some(1));
    dashboard.select_next();
    assert_eq!(dashboard.selected(), Some(0));
}
