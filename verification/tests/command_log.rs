use escpos_emulator::emulator::EmulatorState;
use escpos_emulator::escpos::commands::{EscPosCommand, Font, Justification};
use escpos_emulator::gui::app::uptime_text;
use escpos_emulator::gui::command_log::{describe, time_label, CommandLog, LogColour};
use escpos_emulator::gui::text_format::{decimal_string, hex_text};

fn all_commands() -> Vec<EscPosCommand> {
    vec![
        EscPosCommand::Text("Hello".to_string()),
        EscPosCommand::NewLine,
        EscPosCommand::CarriageReturn,
        EscPosCommand::LineFeed,
        EscPosCommand::InitializePrinter,
        EscPosCommand::SetFont(Font::FontC),
        EscPosCommand::SetJustification(Justification::Center),
        EscPosCommand::SetEmphasis(true),
        EscPosCommand::SetUnderline(false),
        EscPosCommand::SetItalic(true),
        EscPosCommand::SetLineHeight(300),
        EscPosCommand::SetFontSize(17),
        EscPosCommand::SetCodepage(22),
        EscPosCommand::CutPaper,
        EscPosCommand::PrintImage(vec![0, 255, 7]),
        EscPosCommand::PrintRasterImage { width_bytes: 48, height: 2, data: vec![1, 2] },
        EscPosCommand::Unknown(vec![27, 90]),
    ]
}

#[test]
fn search_text_is_debug_text_except_for_text() {
    for c in all_commands() {
        match &c {
            EscPosCommand::Text(t) => assert_eq!(&c.search_text(), t),
            _ => assert_eq!(c.search_text(), format!("{:?}", c)),
        }
    }
    assert_eq!(EscPosCommand::PrintImage(vec![]).search_text(), "PrintImage([])");
}

#[test]
fn descriptions_and_colours() {
    let expected = [
        ("📝 Hello", LogColour::Text),
        ("↵ New line", LogColour::Muted),
        ("⚙️ CarriageReturn", LogColour::Muted),
        ("⚙️ LineFeed", LogColour::Muted),
        ("⚙️ InitializePrinter", LogColour::Muted),
        ("🔤 Font: FontC", LogColour::Control),
        ("📐 Justification: Center", LogColour::Control),
        ("💪 Emphasis: ON", LogColour::Toggle),
        ("➖ Underline: OFF", LogColour::Toggle),
        ("✒ Italic: ON", LogColour::Toggle),
        ("📏 Line height: 300", LogColour::Control),
        ("🔤 Font size: 17", LogColour::Control),
        ("🌐 Codepage: 22", LogColour::Control),
        ("✂️ Paper cut", LogColour::Danger),
        ("🖼️ Bit Image (ESC *)", LogColour::Media),
        ("🖼️ Raster Image (GS v 0) 384×2", LogColour::Media),
        ("❓ Unknown command", LogColour::Muted),
    ];
    for (c, (label, colour)) in all_commands().iter().zip(expected.iter()) {
        let (l, k) = describe(c);
        assert_eq!(l, *label);
        assert_eq!(k, *colour);
    }
}

#[test]
fn number_and_hex_text() {
    assert_eq!(decimal_string(0), "0");
    assert_eq!(decimal_string(9), "9");
    assert_eq!(decimal_string(10), "10");
    assert_eq!(decimal_string(u64::MAX), u64::MAX.to_string());
    assert_eq!(hex_text(&[]), "");
    assert_eq!(hex_text(&[0x1B, 0x40, 0x0A, 0xFF]), "1B 40 0A FF");
}

#[test]
fn time_labels() {
    assert_eq!(time_label(0), "0s");
    assert_eq!(time_label(59), "59s");
    assert_eq!(time_label(60), "1m0s");
    assert_eq!(time_label(3599), "59m59s");
    assert_eq!(time_label(3600), "1h0m");
    assert_eq!(time_label(7384), "2h3m");
}

#[test]
fn uptime() {
    assert_eq!(uptime_text(0), "⏱ 00:00:00");
    assert_eq!(uptime_text(3723), "⏱ 01:02:03");
    assert_eq!(uptime_text(360000 + 59), "⏱ 100:00:59");
}

fn history_with(cmds: Vec<EscPosCommand>) -> EmulatorState {
    let mut s = EmulatorState::new();
    for c in &cmds {
        s.process_command(c, &[]);
    }
    s
}

#[test]
fn selection_newest_first_and_bounded() {
    let s = history_with(vec![
        EscPosCommand::Text("Coffee".to_string()),
        EscPosCommand::NewLine,
        EscPosCommand::Text("COFFEE large".to_string()),
        EscPosCommand::SetEmphasis(true),
        EscPosCommand::Text("tea".to_string()),
    ]);
    let mut log = CommandLog::new();
    assert_eq!(log.select_entries(s.get_command_history()), (vec![4, 3, 2, 1, 0], 5));
    log.filter_text = "coffee".to_string();
    assert_eq!(log.select_entries(s.get_command_history()), (vec![2, 0], 2));
    log.filter_text = "EMPHASIS(TRUE".to_string();
    assert_eq!(log.select_entries(s.get_command_history()), (vec![3], 1));
    log.filter_text = "line".to_string();
    assert_eq!(log.select_entries(s.get_command_history()), (vec![1], 1));
    log.filter_text = String::new();
    log.max_display_lines = 2;
    assert_eq!(log.select_entries(s.get_command_history()), (vec![4, 3], 5));
    log.filter_text = "zzz".to_string();
    assert_eq!(log.select_entries(s.get_command_history()), (vec![], 0));
}
