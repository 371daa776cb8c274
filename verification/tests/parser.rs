use escpos_emulator::escpos::commands::{EscPosCommand, Font, Justification};
use escpos_emulator::escpos::parser::EscPosParser;

fn parse(data: &[u8]) -> Vec<EscPosCommand> {
    EscPosParser::new().parse_stream(data).unwrap()
}

fn text(cmd: &EscPosCommand) -> &str {
    match cmd {
        EscPosCommand::Text(t) => t.as_str(),
        other => panic!("expected text, got {:?}", other),
    }
}

#[test]
fn text_and_newlines() {
    let cmds = parse(b"Hello\nWorld\r\n");
    assert_eq!(cmds.len(), 5);
    assert_eq!(text(&cmds[0]), "Hello");
    assert!(matches!(cmds[1], EscPosCommand::NewLine));
    assert_eq!(text(&cmds[2]), "World");
    assert!(matches!(cmds[3], EscPosCommand::CarriageReturn));
    assert!(matches!(cmds[4], EscPosCommand::NewLine));
}

#[test]
fn esc_commands_with_arguments() {
    let cmds = parse(b"\x1B@\x1BM\x01\x1Ba\x02\x1BE\x1BF\x1B-\x01\x1B4\x1B5\x1B3\x18\x1B!\x10\x1Bt\x16\x1Bm\x1BJ\x05");
    assert!(matches!(cmds[0], EscPosCommand::InitializePrinter));
    assert!(matches!(cmds[1], EscPosCommand::SetFont(Font::FontB)));
    assert!(matches!(cmds[2], EscPosCommand::SetJustification(Justification::Right)));
    assert!(matches!(cmds[3], EscPosCommand::SetEmphasis(true)));
    assert!(matches!(cmds[4], EscPosCommand::SetEmphasis(false)));
    assert!(matches!(cmds[5], EscPosCommand::SetUnderline(true)));
    assert!(matches!(cmds[6], EscPosCommand::SetItalic(true)));
    assert!(matches!(cmds[7], EscPosCommand::SetItalic(false)));
    assert!(matches!(cmds[8], EscPosCommand::SetLineHeight(24)));
    assert!(matches!(cmds[9], EscPosCommand::SetFontSize(16)));
    assert!(matches!(cmds[10], EscPosCommand::SetCodepage(0x16)));
    assert!(matches!(cmds[11], EscPosCommand::CutPaper));
    assert!(matches!(cmds[12], EscPosCommand::LineFeed));
    assert_eq!(cmds.len(), 13);
}

#[test]
fn font_and_justification_out_of_range_fall_back() {
    let cmds = parse(b"\x1BM\x07\x1Ba\x09\x1BM\x02\x1Ba\x01");
    assert!(matches!(cmds[0], EscPosCommand::SetFont(Font::FontA)));
    assert!(matches!(cmds[1], EscPosCommand::SetJustification(Justification::Left)));
    assert!(matches!(cmds[2], EscPosCommand::SetFont(Font::FontC)));
    assert!(matches!(cmds[3], EscPosCommand::SetJustification(Justification::Center)));
}

#[test]
fn unknown_sequences_keep_their_two_bytes() {
    let cmds = parse(b"\x1BZ\x1DZ");
    assert_eq!(cmds.len(), 2);
    match (&cmds[0], &cmds[1]) {
        (EscPosCommand::Unknown(a), EscPosCommand::Unknown(b)) => {
            assert_eq!(a, &vec![0x1B, b'Z']);
            assert_eq!(b, &vec![0x1D, b'Z']);
        }
        _ => panic!("expected two unknown commands"),
    }
}

#[test]
fn raster_image_is_decoded() {
    // GS v 0 m xL xH yL yH: 2 bytes per row, 2 rows.
    let cmds = parse(&[0x1D, b'v', b'0', 0, 2, 0, 2, 0, 0xFF, 0x00, 0x81, 0x7E, b'\n']);
    assert_eq!(cmds.len(), 2);
    match &cmds[0] {
        EscPosCommand::PrintRasterImage { width_bytes, height, data } => {
            assert_eq!(*width_bytes, 2);
            assert_eq!(*height, 2);
            assert_eq!(data, &vec![0xFF, 0x00, 0x81, 0x7E]);
        }
        other => panic!("unexpected {:?}", other),
    }
    assert!(matches!(cmds[1], EscPosCommand::NewLine));
}

#[test]
fn column_bit_image_payload() {
    // ESC * 33: 3 bytes per column, 2 columns.
    let cmds = parse(&[0x1B, b'*', 33, 2, 0, 1, 2, 3, 4, 5, 6, b'A']);
    match &cmds[0] {
        EscPosCommand::PrintImage(d) => assert_eq!(d, &vec![1, 2, 3, 4, 5, 6]),
        other => panic!("unexpected {:?}", other),
    }
    assert_eq!(text(&cmds[1]), "A");
    // ESC * 0: 1 byte per column.
    let cmds = parse(&[0x1B, b'*', 0, 3, 0, 9, 8, 7]);
    match &cmds[0] {
        EscPosCommand::PrintImage(d) => assert_eq!(d, &vec![9, 8, 7]),
        other => panic!("unexpected {:?}", other),
    }
}

#[test]
fn cut_variants() {
    let cmds = parse(&[0x1D, b'V', 0, 0x1D, b'V', 66, 3, 0x1D, b'V', 9, 0x1B, b'i']);
    assert_eq!(cmds.len(), 4);
    for c in &cmds {
        assert!(matches!(c, EscPosCommand::CutPaper));
    }
}

#[test]
fn incomplete_sequence_waits_for_more_data() {
    let mut p = EscPosParser::new();
    let first = p.parse_stream(b"Hi\x1Ba").unwrap();
    assert_eq!(first.len(), 1);
    assert_eq!(text(&first[0]), "Hi");
    let second = p.parse_stream(b"\x01OK").unwrap();
    assert_eq!(second.len(), 2);
    assert!(matches!(second[0], EscPosCommand::SetJustification(Justification::Center)));
    assert_eq!(text(&second[1]), "OK");
}

#[test]
fn incomplete_raster_waits_for_its_data() {
    let mut p = EscPosParser::new();
    let first = p.parse_stream(&[0x1D, b'v', b'0', 0, 1, 0, 2, 0, 0xAA]).unwrap();
    assert!(first.is_empty());
    let second = p.parse_stream(&[0x55]).unwrap();
    assert_eq!(second.len(), 1);
    assert!(matches!(&second[0], EscPosCommand::PrintRasterImage { data, .. } if data == &vec![0xAA, 0x55]));
}

#[test]
fn dle_eot_and_control_bytes_are_skipped() {
    let cmds = parse(b"\x10\x04\x01\x00\x07A\x10\x05B");
    assert_eq!(cmds.len(), 2);
    assert_eq!(text(&cmds[0]), "A");
    assert_eq!(text(&cmds[1]), "B");
}

#[test]
fn lone_escape_bytes_are_kept() {
    let mut p = EscPosParser::new();
    assert!(p.parse_stream(b"\x1B").unwrap().is_empty());
    assert!(p.parse_stream(b"").unwrap().is_empty());
    let cmds = p.parse_stream(b"E").unwrap();
    assert!(matches!(cmds[0], EscPosCommand::SetEmphasis(true)));
    let mut q = EscPosParser::new();
    assert!(q.parse_stream(b"\x10\x04").unwrap().is_empty());
    assert!(q.parse_stream(b"\x01X").map(|c| c.len()).unwrap() == 1);
}

#[test]
fn non_ascii_text_is_decoded_lossily() {
    let cmds = parse("Café".as_bytes());
    assert_eq!(text(&cmds[0]), "Café");
    let cmds = parse(&[b'a', 0xFF, b'b']);
    assert_eq!(text(&cmds[0]), "a\u{FFFD}b");
}

#[test]
fn chunked_feeding_matches_whole_feeding() {
    let stream: Vec<u8> = b"\x1B@Total\n\x1BE\x1D\x56\x41\x03Done\n".to_vec();
    for split in 0..=stream.len() {
        let (a, b) = stream.split_at(split);
        // The law excludes splits inside a run of text ("Total", "Done") that the
        // next chunk continues.
        if (3..=6).contains(&split) || (15..=17).contains(&split) {
            continue;
        }
        let mut p = EscPosParser::new();
        let mut chunked = p.parse_stream(a).unwrap();
        chunked.extend(p.parse_stream(b).unwrap());
        let whole = EscPosParser::new().parse_stream(&stream).unwrap();
        assert_eq!(format!("{:?}", chunked), format!("{:?}", whole), "split at {}", split);
    }
}

#[test]
fn default_and_clone_keep_pending_bytes() {
    let mut p = EscPosParser::default();
    assert!(p.parse_stream(b"\x1B").unwrap().is_empty());
    let mut q = p.clone();
    let cmds = q.parse_stream(b"@").unwrap();
    assert!(matches!(cmds[0], EscPosCommand::InitializePrinter));
    let cmds = p.parse_stream(b"E").unwrap();
    assert!(matches!(cmds[0], EscPosCommand::SetEmphasis(true)));
}

#[test]
fn command_clone_is_equal() {
    let c = EscPosCommand::PrintRasterImage { width_bytes: 1, height: 1, data: vec![7] };
    assert_eq!(format!("{:?}", c.clone()), format!("{:?}", c));
    let t = EscPosCommand::Text("x".to_string());
    assert_eq!(format!("{:?}", t.clone()), "Text(\"x\")");
}

#[test]
fn split_inside_text_gives_two_text_commands() {
    let mut p = EscPosParser::new();
    let mut chunked = p.parse_stream(b"To").unwrap();
    chunked.extend(p.parse_stream(b"tal").unwrap());
    assert_eq!(chunked.len(), 2);
    assert_eq!(text(&chunked[0]), "To");
    assert_eq!(text(&chunked[1]), "tal");
}

#[test]
fn raw_bytes_pair_with_commands() {
    let mut p = EscPosParser::new();
    let d = p.parse_stream_raw(b"A\x00B\r\x1Ba\x01\x10\x04\x01\x1B").unwrap();
    let raws: Vec<Vec<u8>> = d.iter().map(|(_, r)| r.clone()).collect();
    assert_eq!(raws, vec![b"A".to_vec(), b"B".to_vec(), b"\r".to_vec(), vec![0x1B, b'a', 1]]);
    // The trailing ESC waits for more data.
    let d = p.parse_stream_raw(b"@").unwrap();
    assert_eq!(d.len(), 1);
    assert_eq!(d[0].1, vec![0x1B, b'@']);
    assert!(matches!(d[0].0, EscPosCommand::InitializePrinter));
}

#[test]
fn text_never_holds_control_characters() {
    let cmds = parse(&[b'a', 0xC0, 0x80, b'b', 0x01, 0xE2, 0x82, 0xAC, 0x7F, 0x1F, b'z']);
    for c in &cmds {
        if let EscPosCommand::Text(t) = c {
            assert!(!t.is_empty());
            assert!(t.chars().all(|ch| ch as u32 >= 0x20), "{:?}", t);
        }
    }
    assert_eq!(text(&cmds[0]), "a\u{FFFD}\u{FFFD}b");
    assert_eq!(text(&cmds[1]), "\u{20AC}\u{7F}");
    assert_eq!(text(&cmds[2]), "z");
}
