use omnirec::tray::{menu_id, menu_label, tray_action, tray_icon_plan, tray_tooltip, TrayAction};

#[test]
fn menu_ids_map_to_actions() {
    assert_eq!(tray_action("record"), Some(TrayAction::StartRecording));
    assert_eq!(tray_action("exit"), Some(TrayAction::Exit));
    assert_eq!(tray_action("bogus"), None);
    for a in [
        TrayAction::StartRecording,
        TrayAction::StopRecording,
        TrayAction::ShowTranscription,
        TrayAction::ToggleAlwaysOnTop,
        TrayAction::OpenConfiguration,
        TrayAction::OpenLogs,
        TrayAction::OpenAbout,
        TrayAction::Exit,
    ] {
        assert_eq!(tray_action(menu_id(a)), Some(a));
    }
    assert_eq!(menu_label(TrayAction::StartRecording), "Record Screen/Window");
}

#[test]
fn tooltip_and_icons() {
    assert_eq!(tray_tooltip(true), "OmniRec - Recording...");
    assert_eq!(tray_tooltip(false), "OmniRec");
    let (names, color) = tray_icon_plan(true);
    assert_eq!(names, vec!["128x128.png", "64x64.png", "32x32.png"]);
    assert_eq!(color, (59, 130, 246));
    let (names, color) = tray_icon_plan(false);
    assert_eq!(names.len(), 4);
    assert_eq!(color, (255, 255, 255));
}
