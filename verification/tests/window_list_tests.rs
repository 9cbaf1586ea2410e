use omnirec::window_list::{list_windows_from, window_entry, ShareableWindow, WindowOwner};

fn win(id: u32, title: &str, app: &str, bundle: &str) -> ShareableWindow {
    ShareableWindow {
        window_id: id,
        title: Some(title.to_string()),
        is_on_screen: true,
        window_layer: 0,
        width: 800,
        height: 600,
        owner: Some(WindowOwner {
            application_name: Some(app.to_string()),
            bundle_identifier: Some(bundle.to_string()),
        }),
    }
}

#[test]
fn system_and_hidden_windows_are_not_listed() {
    assert!(window_entry(&win(1, "Doc", "Pages", "com.apple.iWork.Pages")).is_some());
    assert!(window_entry(&win(2, "Dock", "Dock", "com.apple.dock")).is_none());
    assert!(window_entry(&win(3, "Desktop", "Finder", "com.apple.finder")).is_none());
    assert!(window_entry(&win(4, "Home", "Finder", "com.apple.finder")).is_some());
    assert!(window_entry(&win(5, "", "Pages", "x")).is_none());
    let mut small = win(6, "Tiny", "App", "x");
    small.width = 49;
    assert!(window_entry(&small).is_none());
    let mut layered = win(7, "Menu", "App", "x");
    layered.window_layer = 25;
    assert!(window_entry(&layered).is_none());
    let mut off = win(8, "Off", "App", "x");
    off.is_on_screen = false;
    assert!(window_entry(&off).is_none());
    let mut orphan = win(9, "Orphan", "App", "x");
    orphan.owner = None;
    assert!(window_entry(&orphan).is_none());
    let mut unnamed = win(10, "T", "App", "x");
    unnamed.owner = Some(WindowOwner { application_name: None, bundle_identifier: None });
    assert_eq!(window_entry(&unnamed).unwrap().process_name, "Unknown");
}

#[test]
fn windows_are_listed_by_process_then_title() {
    let ws = vec![
        win(1, "b", "Zed", "z"),
        win(2, "Dock", "Dock", "com.apple.dock"),
        win(3, "z", "Alpha", "a"),
        win(4, "a", "Zed", "z"),
        win(5, "m", "Alpha", "a"),
    ];
    let l = list_windows_from(&ws);
    let order: Vec<isize> = l.iter().map(|w| w.handle).collect();
    assert_eq!(order, vec![5, 3, 4, 1]);
}
