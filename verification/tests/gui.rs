use escpos_emulator::escpos::printer::ReceiptLine;
use escpos_emulator::gui::app::Tab;
use escpos_emulator::gui::command_log::CommandLog;
use escpos_emulator::gui::receipt_viewer::{display_order, hash_bytes, split_jobs};
use escpos_emulator::gui::settings_panel::{
    combined_output, connection_outcome, install_windows_outcome, linux_install_outcome,
    preferred_output, printer_status_outcome, uninstall_outcome, OpResult, SettingsPanel,
};

#[test]
fn tabs() {
    assert_eq!(Tab::default(), Tab::Receipt);
    assert_eq!(Tab::Receipt.label(), "🖨  Receipt");
    assert_eq!(Tab::Commands.label(), "📋  Commands");
    assert_eq!(Tab::Settings.label(), "⚙  Settings");
}

#[test]
fn command_log_defaults() {
    let log = CommandLog::new();
    assert!(log.show_timestamps);
    assert!(!log.show_raw_data);
    assert_eq!(log.max_display_lines, 1000);
    assert!(log.filter_text.is_empty());
}

#[test]
fn fnv1a_hash() {
    assert_eq!(hash_bytes(&[]), 0xcbf29ce484222325);
    assert_eq!(hash_bytes(b"a"), 0xaf63dc4c8601ec8c);
    assert_eq!(hash_bytes(b"foobar"), 0x85944171f73967e8);
}

#[test]
fn jobs_split_at_cuts() {
    let buffer = vec![
        ReceiptLine::Text("a".to_string()),
        ReceiptLine::Text("b".to_string()),
        ReceiptLine::Separator,
        ReceiptLine::Separator,
        ReceiptLine::Bitmap { width_px: 8, height_px: 1, data: vec![0] },
        ReceiptLine::Text("c".to_string()),
    ];
    let jobs = split_jobs(&buffer);
    assert_eq!(jobs, vec![(vec![0, 1], true), (vec![], true), (vec![4, 5], false)]);
    let only_cut = split_jobs(&vec![ReceiptLine::Text("x".to_string()), ReceiptLine::Separator]);
    assert_eq!(only_cut, vec![(vec![0], true)]);
    assert!(split_jobs(&vec![]).is_empty());
}

#[test]
fn job_display_order() {
    assert_eq!(display_order(3, false), vec![0, 1, 2]);
    assert_eq!(display_order(3, true), vec![2, 1, 0]);
    assert!(display_order(0, true).is_empty());
}

#[test]
fn settings_dialog_state() {
    let mut panel = SettingsPanel::default();
    assert!(!panel.is_busy());
    let (tx, rx) = std::sync::mpsc::channel::<OpResult>();
    panel.begin("Install Printer", rx);
    assert!(panel.is_busy());
    let r = panel.result.as_ref().unwrap();
    assert_eq!((r.title.as_str(), r.body.as_str(), r.ok), ("Install Printer", "Working…", true));
    // Cannot close while busy.
    panel.close_dialog(false, true);
    assert!(panel.result.is_some());
    drop(tx);
    panel.complete(connection_outcome(false));
    assert!(!panel.is_busy());
    assert!(!panel.result.as_ref().unwrap().ok);
    panel.close_dialog(true, false);
    assert!(panel.result.is_some());
    panel.close_dialog(true, true);
    assert!(panel.result.is_none());
}

#[test]
fn operation_outcomes() {
    let r = install_windows_outcome(true, String::new());
    assert_eq!((r.title.as_str(), r.body.as_str(), r.ok), ("Install Windows Printer", "Printer installed successfully.", true));
    let r = install_windows_outcome(false, String::new());
    assert_eq!(r.body, "Installation failed. Try running as Administrator.");
    let r = install_windows_outcome(false, "Access denied".to_string());
    assert_eq!((r.body.as_str(), r.ok), ("Access denied", false));
    let r = uninstall_outcome(true, String::new());
    assert_eq!((r.title.as_str(), r.body.as_str()), ("Uninstall Printer", "Printer uninstalled."));
    assert_eq!(uninstall_outcome(false, "no".to_string()).body, "no");
    let r = connection_outcome(true);
    assert_eq!(r.body, "✅ Port 9100 is reachable — the server is listening.");
    assert_eq!(r.title, "Test Connection");
}

#[test]
fn printer_status_outcomes() {
    let missing = "Virtual printer is NOT installed.";
    let r = printer_status_outcome("   \n".to_string());
    assert_eq!((r.title.as_str(), r.body.as_str(), r.ok), ("Printer Status", missing, false));
    assert_eq!(printer_status_outcome("lpstat: Unknown destination".to_string()).body, missing);
    assert_eq!(printer_status_outcome("No such printer".to_string()).body, missing);
    assert_eq!(printer_status_outcome("\u{3000}\u{A0}\t".to_string()).body, missing);
    let r = printer_status_outcome("\u{200B}".to_string());
    assert!(r.ok);
    let r = printer_status_outcome("printer ESC_POS is idle".to_string());
    assert_eq!((r.body.as_str(), r.ok), ("printer ESC_POS is idle", true));
}

#[test]
fn shell_outputs() {
    assert_eq!(combined_output(b"  out \n", b"err "), "out\nerr");
    assert_eq!(combined_output(b" \n", b" err\n"), "err");
    assert_eq!(combined_output(b"ok\n", b""), "ok");
    assert_eq!(combined_output("\u{2003}ok\u{85}".as_bytes(), b""), "ok");
    assert_eq!(combined_output(b"", b""), "");
    assert_eq!(combined_output(&[0xFF], b""), "\u{FFFD}");
    assert_eq!(preferred_output(b"  out \n", b"err"), "out");
    assert_eq!(preferred_output(b" \n", b" err\n"), "err");
    let r = linux_install_outcome(true, b"", b"");
    assert_eq!((r.title.as_str(), r.body.as_str(), r.ok), ("Install Linux Printer", "Done.", true));
    let r = linux_install_outcome(false, b"", b"lpadmin: failed\n");
    assert_eq!((r.body.as_str(), r.ok), ("lpadmin: failed", false));
}
