use tcui::dialogs::{ExportDialog, ExportDialogFocus, ExportTarget, OutputFormat};

#[test]
fn export_dialog_starts_on_the_directory_field() {
    let dialog = ExportDialog::new(ExportTarget::Conversation(7), "chat".to_string(), "/tmp/out".to_string());
    assert_eq!(dialog.focus, ExportDialogFocus::Path);
    assert_eq!(dialog.format, OutputFormat::Markdown);
    assert_eq!(dialog.directory_input, "/tmp/out");
    assert_eq!(dialog.target, ExportTarget::Conversation(7));
}

#[test]
fn export_focus_cycles_both_ways() {
    let mut dialog = ExportDialog::new(ExportTarget::Memory("m.md".to_string()), "m".to_string(), ".".to_string());
    let order = [
        ExportDialogFocus::Markdown,
        ExportDialogFocus::Json,
        ExportDialogFocus::Export,
        ExportDialogFocus::Cancel,
        ExportDialogFocus::Path,
    ];
    for expected in order {
        dialog.cycle_focus(true);
        assert_eq!(dialog.focus, expected);
    }
    dialog.cycle_focus(false);
    assert_eq!(dialog.focus, ExportDialogFocus::Cancel);
    dialog.cycle_focus(true);
    assert_eq!(dialog.focus, ExportDialogFocus::Path);
}

#[test]
fn export_dialog_sits_in_the_middle_of_the_screen() {
    let area = ExportDialog::popup_area(tcui::geometry::Rect::new(0, 0, 100, 40));
    assert_eq!(area.height, 18);
    assert!(area.width >= 63 && area.width <= 65);
    assert!(area.y >= 10 && area.y <= 12);
    let small = ExportDialog::popup_area(tcui::geometry::Rect::new(0, 0, 50, 5));
    assert_eq!(small.height, 4);
}
