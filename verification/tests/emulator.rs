use escpos_emulator::escpos::parser::EscPosParser;
use escpos_emulator::emulator::EmulatorState;
use escpos_emulator::escpos::commands::{EscPosCommand, Font, Justification};
use escpos_emulator::escpos::printer::PaperWidth;

#[test]
fn new_state() {
    let s = EmulatorState::new();
    assert_eq!(s.max_history_size, 1000);
    assert!(s.get_command_history().is_empty());
    assert!(s.get_printer_state().get_buffer().is_empty());
}

#[test]
fn commands_are_recorded_and_applied() {
    let mut s = EmulatorState::new();
    s.process_command(&EscPosCommand::SetEmphasis(true), &[]);
    s.process_command(&EscPosCommand::Text("Hi".to_string()), &[]);
    s.process_command(&EscPosCommand::NewLine, &[]);
    let h = s.get_command_history();
    assert_eq!(h.len(), 3);
    assert!(matches!(h[0].command, EscPosCommand::SetEmphasis(true)));
    assert!(matches!(h[2].command, EscPosCommand::NewLine));
    assert!(h.iter().all(|e| e.raw_data.is_empty()));
    assert!(s.printer_state.emphasis);
    assert_eq!(s.get_printer_state().get_buffer().len(), 1);
}

#[test]
fn history_is_bounded() {
    let mut s = EmulatorState::new();
    s.max_history_size = 3;
    for h in 0..5u32 {
        s.process_command(&EscPosCommand::SetLineHeight(h), &[]);
    }
    let hist = s.get_command_history();
    assert_eq!(hist.len(), 3);
    assert!(matches!(hist[0].command, EscPosCommand::SetLineHeight(2)));
    assert!(matches!(hist[2].command, EscPosCommand::SetLineHeight(4)));
    // Lowering the bound drops several entries at once.
    s.max_history_size = 1;
    s.process_command(&EscPosCommand::CutPaper, &[]);
    assert_eq!(s.get_command_history().len(), 1);
    assert!(matches!(s.get_command_history()[0].command, EscPosCommand::CutPaper));
    s.max_history_size = 0;
    s.process_command(&EscPosCommand::CutPaper, &[]);
    assert!(s.get_command_history().is_empty());
}

#[test]
fn clearing() {
    let mut s = EmulatorState::new();
    s.process_command(&EscPosCommand::Text("x".to_string()), &[]);
    s.process_command(&EscPosCommand::NewLine, &[]);
    s.clear_history();
    assert!(s.get_command_history().is_empty());
    assert_eq!(s.printer_state.get_buffer().len(), 1);
    s.process_command(&EscPosCommand::CutPaper, &[]);
    s.clear_printer_buffer();
    assert!(s.printer_state.get_buffer().is_empty());
    assert_eq!(s.get_command_history().len(), 1);
}

#[test]
fn status_summary() {
    let mut s = EmulatorState::new();
    s.process_command(&EscPosCommand::SetFont(Font::FontC), &[]);
    s.process_command(&EscPosCommand::SetJustification(Justification::Right), &[]);
    s.process_command(&EscPosCommand::SetUnderline(true), &[]);
    s.process_command(&EscPosCommand::NewLine, &[]);
    s.set_paper_width(78);
    let sum = s.get_status_summary();
    assert_eq!(sum.paper_width, "Mm78");
    assert_eq!(sum.current_font, "FontC");
    assert_eq!(sum.justification, "Right");
    assert!(!sum.emphasis && sum.underline && !sum.italic);
    assert_eq!(sum.buffer_lines, 1);
    assert_eq!(sum.command_count, 4);
    assert_eq!(sum.dpi, 203);
}

#[test]
fn setters() {
    let mut s = EmulatorState::new();
    s.set_paper_width(50);
    s.set_line_height(40);
    s.set_font_size(0x30);
    assert_eq!(s.printer_state.paper_width, PaperWidth::Mm50);
    assert_eq!(s.printer_state.line_height, 40);
    assert_eq!(s.printer_state.font_size, 0x30);
    assert!(s.get_command_history().is_empty());
}

#[test]
fn emulator_clone_is_equal() {
    let mut s = EmulatorState::new();
    s.process_command(&EscPosCommand::Text("a".to_string()), &[]);
    s.process_command(&EscPosCommand::CutPaper, &[]);
    let t = s.clone();
    assert_eq!(format!("{:?}", t), format!("{:?}", s));
    assert_eq!(t.start_time, s.start_time);
}

#[test]
fn raw_bytes_are_recorded() {
    let mut s = EmulatorState::new();
    let mut p = EscPosParser::new();
    let decoded = p.parse_stream_raw(b"\x1BE\x01Hi\n\x1D\x56\x41\x03").unwrap();
    for (cmd, raw) in &decoded {
        s.process_command(cmd, raw);
    }
    let h = s.get_command_history();
    assert_eq!(h.len(), 4);
    assert_eq!(h[0].raw_data, vec![0x1B, b'E']);
    assert_eq!(h[1].raw_data, b"Hi".to_vec());
    assert_eq!(h[2].raw_data, vec![b'\n']);
    assert_eq!(h[3].raw_data, vec![0x1D, 0x56, 0x41, 0x03]);
    assert!(matches!(h[3].command, EscPosCommand::CutPaper));
}
