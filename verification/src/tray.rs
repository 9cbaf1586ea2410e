//! Tray menu decisions: what each menu entry does, the tooltip, and which
//! icon files are tried for each desktop.

use vstd::prelude::*;
use crate::text::str_eq;

verus! {

/// What a tray menu entry asks for.
#[derive(Debug, Clone, Copy, PartialEq, Eq, Structural)]
pub enum TrayAction {
    StartRecording,
    StopRecording,
    ShowTranscription,
    ToggleAlwaysOnTop,
    OpenConfiguration,
    OpenLogs,
    OpenAbout,
    Exit,
}

/// The menu entry ids, in menu order, with the action of each.
pub open spec fn menu_entries() -> Seq<(Seq<char>, TrayAction)> {
    seq![
        ("record"@, TrayAction::StartRecording),
        ("stop"@, TrayAction::StopRecording),
        ("transcription"@, TrayAction::ShowTranscription),
        ("always_on_top"@, TrayAction::ToggleAlwaysOnTop),
        ("configuration"@, TrayAction::OpenConfiguration),
        ("logs"@, TrayAction::OpenLogs),
        ("about"@, TrayAction::OpenAbout),
        ("exit"@, TrayAction::Exit),
    ]
}

/// The action of the menu entry with id `id`, if any.
pub open spec fn spec_tray_action(id: Seq<char>) -> Option<TrayAction> {
    if id == "record"@ {
        Some(TrayAction::StartRecording)
    } else if id == "stop"@ {
        Some(TrayAction::StopRecording)
    } else if id == "transcription"@ {
        Some(TrayAction::ShowTranscription)
    } else if id == "always_on_top"@ {
        Some(TrayAction::ToggleAlwaysOnTop)
    } else if id == "configuration"@ {
        Some(TrayAction::OpenConfiguration)
    } else if id == "logs"@ {
        Some(TrayAction::OpenLogs)
    } else if id == "about"@ {
        Some(TrayAction::OpenAbout)
    } else if id == "exit"@ {
        Some(TrayAction::Exit)
    } else {
        None
    }
}

/// The action for a clicked menu entry (see `spec_tray_action`).
pub fn tray_action(menu_id: &str) -> (r: Option<TrayAction>)
    ensures
        r == spec_tray_action(menu_id@),
{
    if str_eq(menu_id, "record") {
        Some(TrayAction::StartRecording)
    } else if str_eq(menu_id, "stop") {
        Some(TrayAction::StopRecording)
    } else if str_eq(menu_id, "transcription") {
        Some(TrayAction::ShowTranscription)
    } else if str_eq(menu_id, "always_on_top") {
        Some(TrayAction::ToggleAlwaysOnTop)
    } else if str_eq(menu_id, "configuration") {
        Some(TrayAction::OpenConfiguration)
    } else if str_eq(menu_id, "logs") {
        Some(TrayAction::OpenLogs)
    } else if str_eq(menu_id, "about") {
        Some(TrayAction::OpenAbout)
    } else if str_eq(menu_id, "exit") {
        Some(TrayAction::Exit)
    } else {
        None
    }
}


/// The ids' lengths and first characters, which tell them apart.
proof fn lemma_menu_id_facts()
    ensures
        "record"@.len() == 6 && "record"@[0] == 'r',
        "stop"@.len() == 4 && "stop"@[0] == 's',
        "transcription"@.len() == 13 && "transcription"@[0] == 't',
        "always_on_top"@.len() == 13 && "always_on_top"@[0] == 'a',
        "configuration"@.len() == 13 && "configuration"@[0] == 'c',
        "logs"@.len() == 4 && "logs"@[0] == 'l',
        "about"@.len() == 5 && "about"@[0] == 'a',
        "exit"@.len() == 4 && "exit"@[0] == 'e',
{
    broadcast use vstd::string::group_string_axioms;
    reveal_strlit("record");
    reveal_strlit("stop");
    reveal_strlit("transcription");
    reveal_strlit("always_on_top");
    reveal_strlit("configuration");
    reveal_strlit("logs");
    reveal_strlit("about");
    reveal_strlit("exit");
}

/// The id of the menu entry for an action.
pub fn menu_id(action: TrayAction) -> (r: &'static str)
    ensures
        spec_tray_action(r@) == Some(action),
{
    proof {
        lemma_menu_id_facts();
    }
    match action {
        TrayAction::StartRecording => "record",
        TrayAction::StopRecording => "stop",
        TrayAction::ShowTranscription => "transcription",
        TrayAction::ToggleAlwaysOnTop => "always_on_top",
        TrayAction::OpenConfiguration => "configuration",
        TrayAction::OpenLogs => "logs",
        TrayAction::OpenAbout => "about",
        TrayAction::Exit => "exit",
    }
}

/// The label shown for an action's menu entry.
pub fn menu_label(action: TrayAction) -> (r: &'static str)
    ensures
        r@ == match action {
            TrayAction::StartRecording => "Record Screen/Window"@,
            TrayAction::StopRecording => "Stop Recording"@,
            TrayAction::ShowTranscription => "Transcription"@,
            TrayAction::ToggleAlwaysOnTop => "Always on Top"@,
            TrayAction::OpenConfiguration => "Configuration"@,
            TrayAction::OpenLogs => "Logs"@,
            TrayAction::OpenAbout => "About"@,
            TrayAction::Exit => "Exit"@,
        },
{
    match action {
        TrayAction::StartRecording => "Record Screen/Window",
        TrayAction::StopRecording => "Stop Recording",
        TrayAction::ShowTranscription => "Transcription",
        TrayAction::ToggleAlwaysOnTop => "Always on Top",
        TrayAction::OpenConfiguration => "Configuration",
        TrayAction::OpenLogs => "Logs",
        TrayAction::OpenAbout => "About",
        TrayAction::Exit => "Exit",
    }
}

/// The tray tooltip.
pub fn tray_tooltip(recording: bool) -> (r: &'static str)
    ensures
        r@ == if recording {
            "OmniRec - Recording..."@
        } else {
            "OmniRec"@
        },
{
    if recording {
        "OmniRec - Recording..."
    } else {
        "OmniRec"
    }
}

/// The icon files tried, in order, for the tray on a Linux desktop: full
/// colour on COSMIC, monochrome symbolic elsewhere; and the colour of the
/// drawn fallback when none loads (blue on COSMIC, white elsewhere).
pub fn tray_icon_plan(cosmic: bool) -> (r: (Vec<&'static str>, (u8, u8, u8)))
    ensures
        cosmic ==> r.0@.map_values(|s: &'static str| s@) == seq![
            "128x128.png"@,
            "64x64.png"@,
            "32x32.png"@,
        ] && r.1 == (59u8, 130u8, 246u8),
        !cosmic ==> r.0@.map_values(|s: &'static str| s@) == seq![
            "omnirec-symbolic-22.png"@,
            "omnirec-symbolic-24.png"@,
            "omnirec-symbolic-32.png"@,
            "omnirec-symbolic.png"@,
        ] && r.1 == (255u8, 255u8, 255u8),
{
    let mut names: Vec<&'static str> = Vec::new();
    if cosmic {
        names.push("128x128.png");
        names.push("64x64.png");
        names.push("32x32.png");
        assert(names@.map_values(|s: &'static str| s@) =~= seq![
            "128x128.png"@,
            "64x64.png"@,
            "32x32.png"@,
        ]);
        (names, (59, 130, 246))
    } else {
        names.push("omnirec-symbolic-22.png");
        names.push("omnirec-symbolic-24.png");
        names.push("omnirec-symbolic-32.png");
        names.push("omnirec-symbolic.png");
        assert(names@.map_values(|s: &'static str| s@) =~= seq![
            "omnirec-symbolic-22.png"@,
            "omnirec-symbolic-24.png"@,
            "omnirec-symbolic-32.png"@,
            "omnirec-symbolic.png"@,
        ]);
        (names, (255, 255, 255))
    }
}

/// Every menu entry's id leads back to its action.
pub proof fn lemma_menu_ids_round_trip()
    ensures
        forall|k: int| 0 <= k < 8 ==> spec_tray_action(#[trigger] menu_entries()[k].0) == Some(
            menu_entries()[k].1,
        ),
{
    lemma_menu_id_facts();
    assert forall|k: int| 0 <= k < 8 implies spec_tray_action(#[trigger] menu_entries()[k].0)
        == Some(menu_entries()[k].1) by {
        if k == 0 {
        } else if k == 1 {
        } else if k == 2 {
        } else if k == 3 {
        } else if k == 4 {
        } else if k == 5 {
        } else if k == 6 {
        } else {
        }
    }
}

} // verus!
