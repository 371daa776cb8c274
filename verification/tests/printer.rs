use escpos_emulator::escpos::commands::{EscPosCommand, Font, Justification};
use escpos_emulator::escpos::printer::{PaperWidth, PrinterState, ReceiptLine};

fn line_text(line: &ReceiptLine) -> &str {
    match line {
        ReceiptLine::Text(t) => t.as_str(),
        other => panic!("expected text, got {:?}", other),
    }
}

#[test]
fn paper_widths() {
    assert_eq!(PaperWidth::from_mm(50), PaperWidth::Mm50);
    assert_eq!(PaperWidth::from_mm(58), PaperWidth::Mm50);
    assert_eq!(PaperWidth::from_mm(78), PaperWidth::Mm78);
    assert_eq!(PaperWidth::from_mm(79), PaperWidth::Mm78);
    assert_eq!(PaperWidth::from_mm(80), PaperWidth::Mm80);
    assert_eq!(PaperWidth::from_mm(112), PaperWidth::Mm80);
    for w in [PaperWidth::Mm50, PaperWidth::Mm78, PaperWidth::Mm80] {
        assert_eq!(PaperWidth::from_mm(w.to_mm()), w);
    }
    assert_eq!(PaperWidth::Mm50.get_dots(), 384);
    assert_eq!(PaperWidth::Mm78.get_dots(), 576);
    assert_eq!(PaperWidth::Mm80.get_dots(), 640);
    assert_eq!(PaperWidth::Mm50.get_max_chars(0), 48);
    assert_eq!(PaperWidth::Mm78.get_max_chars(0), 72);
    assert_eq!(PaperWidth::Mm80.get_max_chars(0x10), 80);
    assert_eq!(PaperWidth::Mm80.get_max_chars(0x20), 40);
}

#[test]
fn debug_names_match_debug_formatting() {
    for w in [PaperWidth::Mm50, PaperWidth::Mm78, PaperWidth::Mm80] {
        assert_eq!(w.debug_name(), format!("{:?}", w));
    }
    for f in [Font::FontA, Font::FontB, Font::FontC] {
        assert_eq!(f.debug_name(), format!("{:?}", f));
    }
    for j in [Justification::Left, Justification::Center, Justification::Right] {
        assert_eq!(j.debug_name(), format!("{:?}", j));
    }
}

#[test]
fn text_is_printed_on_line_feed() {
    let mut p = PrinterState::new();
    p.process_command(&EscPosCommand::Text("Hello ".to_string()));
    p.process_command(&EscPosCommand::Text("World".to_string()));
    assert!(p.get_buffer().is_empty());
    p.process_command(&EscPosCommand::NewLine);
    p.process_command(&EscPosCommand::LineFeed);
    assert_eq!(p.get_buffer().len(), 2);
    assert_eq!(line_text(&p.get_buffer()[0]), "Hello World");
    assert_eq!(line_text(&p.get_buffer()[1]), "");
}

#[test]
fn cut_flushes_pending_text_then_separates() {
    let mut p = PrinterState::new();
    p.process_command(&EscPosCommand::Text("Total".to_string()));
    p.process_command(&EscPosCommand::CutPaper);
    p.process_command(&EscPosCommand::CutPaper);
    let b = p.get_buffer();
    assert_eq!(b.len(), 3);
    assert_eq!(line_text(&b[0]), "Total");
    assert!(matches!(b[1], ReceiptLine::Separator));
    assert!(matches!(b[2], ReceiptLine::Separator));
}

#[test]
fn raster_image_becomes_bitmap_line() {
    let mut p = PrinterState::new();
    p.process_command(&EscPosCommand::Text("Logo".to_string()));
    p.process_command(&EscPosCommand::PrintRasterImage { width_bytes: 3, height: 2, data: vec![1, 2, 3, 4, 5, 6] });
    let b = p.get_buffer();
    assert_eq!(b.len(), 2);
    assert_eq!(line_text(&b[0]), "Logo");
    match &b[1] {
        ReceiptLine::Bitmap { width_px, height_px, data } => {
            assert_eq!(*width_px, 24);
            assert_eq!(*height_px, 2);
            assert_eq!(data, &vec![1, 2, 3, 4, 5, 6]);
        }
        other => panic!("unexpected {:?}", other),
    }
}

#[test]
fn formatting_commands_and_reset() {
    let mut p = PrinterState::new();
    assert_eq!(p.paper_width, PaperWidth::Mm80);
    assert_eq!(p.dpi, 203);
    p.process_command(&EscPosCommand::SetFont(Font::FontB));
    p.process_command(&EscPosCommand::SetJustification(Justification::Center));
    p.process_command(&EscPosCommand::SetEmphasis(true));
    p.process_command(&EscPosCommand::SetUnderline(true));
    p.process_command(&EscPosCommand::SetItalic(true));
    p.process_command(&EscPosCommand::SetLineHeight(50));
    p.process_command(&EscPosCommand::SetFontSize(0x11));
    p.process_command(&EscPosCommand::SetCodepage(22));
    p.process_command(&EscPosCommand::Text("x".to_string()));
    p.process_command(&EscPosCommand::NewLine);
    assert_eq!(p.current_font, Font::FontB);
    assert_eq!(p.justification, Justification::Center);
    assert!(p.emphasis && p.underline && p.italic);
    assert_eq!((p.line_height, p.font_size, p.codepage), (50, 0x11, 22));
    p.process_command(&EscPosCommand::InitializePrinter);
    assert_eq!(p.current_font, Font::FontA);
    assert_eq!(p.justification, Justification::Left);
    assert!(!p.emphasis && !p.underline && !p.italic);
    assert_eq!((p.line_height, p.font_size, p.codepage), (30, 0, 0));
    assert_eq!(p.get_buffer().len(), 1);
}

#[test]
fn ignored_commands_change_nothing() {
    let mut p = PrinterState::new();
    p.process_command(&EscPosCommand::Text("a".to_string()));
    p.process_command(&EscPosCommand::CarriageReturn);
    p.process_command(&EscPosCommand::PrintImage(vec![1, 2]));
    p.process_command(&EscPosCommand::Unknown(vec![0x1B, b'Z']));
    p.process_command(&EscPosCommand::NewLine);
    assert_eq!(p.get_buffer().len(), 1);
    assert_eq!(line_text(&p.get_buffer()[0]), "a");
}

#[test]
fn clear_and_setters() {
    let mut p = PrinterState::new();
    p.process_command(&EscPosCommand::Text("a".to_string()));
    p.process_command(&EscPosCommand::NewLine);
    p.process_command(&EscPosCommand::Text("pending".to_string()));
    p.clear_buffer();
    p.process_command(&EscPosCommand::NewLine);
    assert_eq!(p.get_buffer().len(), 1);
    assert_eq!(line_text(&p.get_buffer()[0]), "");
    p.set_paper_width(PaperWidth::Mm50);
    p.set_line_height(12);
    p.set_font_size(0x20);
    assert_eq!(p.get_paper_width_dots(), 384);
    assert_eq!(p.line_height, 12);
    assert_eq!(p.paper_width.get_max_chars(p.font_size), 24);
}

#[test]
fn bitmap_rendering() {
    // 10 dots wide (2 bytes per row), 2 rows.
    let data = [0b1000_0001, 0b0100_0000, 0b0000_0000, 0b1000_0000];
    let rgb = PrinterState::bitmap_to_rgb(10, 2, &data);
    assert_eq!(rgb.len(), 10 * 2 * 3);
    let px = |x: usize, y: usize| rgb[(y * 10 + x) * 3];
    assert_eq!(px(0, 0), 0);
    assert_eq!(px(1, 0), 255);
    assert_eq!(px(7, 0), 0);
    assert_eq!(px(8, 0), 255);
    assert_eq!(px(9, 0), 0);
    assert_eq!(px(0, 1), 255);
    assert_eq!(px(8, 1), 0);
    assert_eq!(rgb[1], rgb[0]);
    assert_eq!(rgb[2], rgb[0]);
    // Missing data renders blank.
    let rgb = PrinterState::bitmap_to_rgb(8, 2, &[0xFF]);
    assert!(rgb[..24].iter().all(|&v| v == 0));
    assert!(rgb[24..].iter().all(|&v| v == 255));
    assert!(PrinterState::bitmap_to_rgb(0, 5, &[1]).is_empty());
}

#[test]
fn printed_lines_are_never_removed_by_commands() {
    let mut p = PrinterState::new();
    let cmds = vec![
        EscPosCommand::Text("a".to_string()),
        EscPosCommand::NewLine,
        EscPosCommand::Text("b".to_string()),
        EscPosCommand::PrintRasterImage { width_bytes: 1, height: 1, data: vec![0x80] },
        EscPosCommand::InitializePrinter,
        EscPosCommand::CutPaper,
    ];
    let mut before: Vec<String> = Vec::new();
    for c in &cmds {
        p.process_command(c);
        let now: Vec<String> = p.get_buffer().iter().map(|l| format!("{:?}", l)).collect();
        assert!(now.len() >= before.len() && now.len() <= before.len() + 2);
        assert_eq!(&now[..before.len()], &before[..]);
        before = now;
    }
    assert_eq!(before.len(), 4);
}

#[test]
fn printer_clone_is_equal() {
    let mut p = PrinterState::new();
    p.process_command(&EscPosCommand::Text("a".to_string()));
    p.process_command(&EscPosCommand::NewLine);
    p.process_command(&EscPosCommand::Text("b".to_string()));
    let q = p.clone();
    assert_eq!(format!("{:?}", q), format!("{:?}", p));
}
