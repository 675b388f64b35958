use term_plot::ansi::{clear_console_code, encode, hide_cursor_code, move_code};
use term_plot::draw::DrawInstruction;
use term_plot::keys::{classify_key, KeyAction, KeyInput};

#[test]
fn move_code_is_row_then_column() {
    assert_eq!(move_code(5, 3), Some("\x1b[3;5H".to_string()));
    assert_eq!(move_code(1, 65535), Some("\x1b[65535;1H".to_string()));
}

#[test]
fn move_code_refuses_unsendable_positions() {
    assert_eq!(move_code(0, 0), None);
    assert_eq!(move_code(65536, 1), None);
    assert_eq!(move_code(1, 70000), None);
}

#[test]
fn clear_and_hide_codes() {
    assert_eq!(clear_console_code(), "\x1b[1;1H\x1b[2J");
    assert_eq!(hide_cursor_code(), "\x1b[?25l");
}

#[test]
fn encode_joins_instructions() {
    let ops = vec![
        DrawInstruction::MoveCursor(1, 2),
        DrawInstruction::WriteText("50".to_string()),
        DrawInstruction::WriteText(" |".to_string()),
    ];
    assert_eq!(encode(&ops), Some("\x1b[2;1H50 |".to_string()));
    assert_eq!(encode(&vec![]), Some(String::new()));
}

#[test]
fn encode_fails_on_unsendable_position() {
    let ops = vec![
        DrawInstruction::WriteText("a".to_string()),
        DrawInstruction::MoveCursor(100000, 2),
        DrawInstruction::WriteText("b".to_string()),
    ];
    assert_eq!(encode(&ops), None);
}

#[test]
fn quit_and_interrupt_keys_end_the_wait() {
    assert_eq!(classify_key(KeyInput::Char('q')), KeyAction::Quit);
    assert_eq!(classify_key(KeyInput::Ctrl('c')), KeyAction::Interrupt);
    assert_eq!(classify_key(KeyInput::Char('c')), KeyAction::Ignore);
    assert_eq!(classify_key(KeyInput::Ctrl('q')), KeyAction::Ignore);
    assert_eq!(classify_key(KeyInput::Other), KeyAction::Ignore);
    assert!(KeyAction::Quit.ends_wait());
    assert!(KeyAction::Interrupt.ends_wait());
    assert!(!KeyAction::Ignore.ends_wait());
}
