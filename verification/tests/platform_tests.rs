use omnirec::platform::{
    audio_sources_from_devices, create_fallback_tray_icon, format_monitor_name,
    get_desktop_environment, get_platform, is_cinnamon, is_cosmic, is_gnome, is_kde,
    is_portal_mode, is_system_audio_available, is_tray_mode_desktop, parse_u32,
    tray_icon_candidates, AudioCapturePlan, AudioDevice, AudioSourceType, CaptureError,
    MacOSBackend, MacOSThumbnailCapture, MonitorInfo, Platform, primary_first, WindowsBackend, WindowsThumbnailCapture,
    CAPTURE_FPS,
};

#[test]
fn mod_test_backend_creation() {
    let _backend = MacOSBackend::new();
    let _win = WindowsBackend::new();
    let _t1 = MacOSThumbnailCapture::new();
    let _t2 = WindowsThumbnailCapture::new();
}

#[test]
fn test_is_supported_version() {
    assert!(MacOSBackend::is_supported_version());
}

#[test]
fn test_capture_fps() {
    assert_eq!(CAPTURE_FPS as f64, 30.0);
}

#[test]
fn test_system_audio_available_check() {
    assert!(is_system_audio_available("14.2.1\n"));
    assert!(is_system_audio_available("13.0"));
}

#[test]
fn test_macos_version_check() {
    assert!(!is_system_audio_available("12.6.1"));
    assert!(!is_system_audio_available(""));
    assert!(!is_system_audio_available("abc"));
    assert!(is_system_audio_available("  +15 "));
}

#[test]
fn parse_u32_follows_std() {
    let p = |s: &str| parse_u32(&s.chars().collect::<Vec<char>>());
    assert_eq!(p("42"), Some(42));
    assert_eq!(p("+7"), Some(7));
    assert_eq!(p("+"), None);
    assert_eq!(p(""), None);
    assert_eq!(p("4294967295"), Some(u32::MAX));
    assert_eq!(p("4294967296"), None);
    assert_eq!(p("1a"), None);
    for s in ["0", "007", "+12", "-1", "99999999999", " 1"] {
        assert_eq!(p(s), s.parse::<u32>().ok());
    }
}

#[test]
fn desktop_detection() {
    let l = Platform::Linux;
    assert!(is_gnome(l, Some("ubuntu:GNOME")));
    assert!(is_kde(l, Some("kde")));
    assert!(is_cosmic(l, Some("COSMIC")));
    assert!(is_cinnamon(l, Some("X-Cinnamon")));
    assert!(!is_gnome(l, None));
    assert!(is_portal_mode(l, Some("KDE")));
    assert!(!is_portal_mode(l, Some("Hyprland")));
    assert!(is_tray_mode_desktop(l, Some("gnome")));
    assert_eq!(get_desktop_environment(l, true, Some("GNOME")), "hyprland");
    assert_eq!(get_desktop_environment(l, false, Some("ubuntu:GNOME")), "gnome");
    assert_eq!(get_desktop_environment(l, false, Some("X-Cinnamon")), "cinnamon");
    assert_eq!(get_desktop_environment(l, false, None), "unknown");
    for p in [Platform::MacOS, Platform::Windows] {
        assert!(!is_gnome(p, Some("GNOME")));
        assert!(!is_kde(p, Some("KDE")));
        assert!(!is_cosmic(p, Some("COSMIC")));
        assert!(!is_cinnamon(p, Some("X-Cinnamon")));
        assert!(!is_portal_mode(p, Some("GNOME")));
        assert!(!is_tray_mode_desktop(p, Some("KDE")));
        assert_eq!(get_desktop_environment(p, true, Some("GNOME")), "unknown");
    }
    assert_eq!(get_platform(Platform::MacOS), "macos");
}

#[test]
fn monitor_names() {
    assert_eq!(format_monitor_name("\\\\.\\DISPLAY1", true), "Display 1 (Primary)");
    assert_eq!(format_monitor_name("\\\\.\\DISPLAY12", false), "Display 12");
    assert_eq!(format_monitor_name("eDP", false), "eDP");
    assert_eq!(format_monitor_name("HDMI", true), "HDMI (Primary)");
    assert_eq!(format_monitor_name("D00", false), "Display 0");
}

#[test]
fn audio_capture_choice_per_platform() {
    let mac = MacOSBackend::new();
    assert!(matches!(mac.start_audio_capture_dual(Some("s"), Some("m"), true), Ok(AudioCapturePlan::Single(ref id)) if id == "s"));
    assert!(matches!(mac.start_audio_capture_dual(None, Some("m"), true), Err(CaptureError::AudioError(ref m)) if m == "No audio source specified"));
    let win = WindowsBackend::new();
    assert!(matches!(win.start_audio_capture_dual(None, Some("m"), true), Ok(AudioCapturePlan::Single(ref id)) if id == "m"));
    assert!(matches!(win.start_audio_capture_dual(Some("s"), Some("m"), false), Ok(AudioCapturePlan::Dual { ref system, ref microphone, aec: false }) if system == "s" && microphone == "m"));
    assert!(matches!(win.start_audio_capture_dual(None, None, false), Err(CaptureError::AudioError(_))));
}

#[test]
fn audio_sources_for_devices() {
    let devices = vec![
        AudioDevice { id: 42, name: Some("Speakers".to_string()), has_output_streams: true, has_input_streams: false },
        AudioDevice { id: 7, name: None, has_output_streams: true, has_input_streams: true },
        AudioDevice { id: 9, name: Some("Headset".to_string()), has_output_streams: true, has_input_streams: true },
    ];
    let sources = audio_sources_from_devices(&devices);
    let got: Vec<(String, String, AudioSourceType)> =
        sources.into_iter().map(|s| (s.id, s.name, s.source_type)).collect();
    assert_eq!(
        got,
        vec![
            ("42".to_string(), "Speakers (Monitor)".to_string(), AudioSourceType::Output),
            ("9".to_string(), "Headset (Monitor)".to_string(), AudioSourceType::Output),
            ("9".to_string(), "Headset".to_string(), AudioSourceType::Input),
        ]
    );
}

#[test]
fn fallback_icon_is_a_disc() {
    let icon = create_fallback_tray_icon((1, 2, 3));
    assert_eq!(icon.len(), 22 * 22 * 4);
    let at = |x: usize, y: usize| &icon[(y * 22 + x) * 4..(y * 22 + x) * 4 + 4];
    assert_eq!(at(10, 10), &[1, 2, 3, 255]);
    assert_eq!(at(0, 0), &[0, 0, 0, 0]);
    assert_eq!(at(2, 10), &[1, 2, 3, 255]);
    assert_eq!(at(1, 10), &[0, 0, 0, 0]);
}

#[test]
fn icon_candidates_in_order() {
    let c = tray_icon_candidates(Some("/usr/share/omnirec"), "/src/app", "x.png");
    assert_eq!(
        c,
        vec![
            "/usr/share/omnirec/icons/tray/x.png",
            "/usr/share/omnirec/icons/x.png",
            "icons/tray/x.png",
            "src-tauri/icons/tray/x.png",
            "icons/x.png",
            "src-tauri/icons/x.png",
            "/src/app/icons/tray/x.png",
            "/src/app/icons/x.png",
        ]
    );
    assert_eq!(tray_icon_candidates(None, "/m", "y.png").len(), 6);
}

#[test]
fn primary_monitors_come_first() {
    let m = |id: &str, p: bool| MonitorInfo { id: id.to_string(), name: id.to_string(), x: 0, y: 0, width: 1, height: 1, is_primary: p };
    let ordered = primary_first(vec![m("a", false), m("b", true), m("c", false), m("d", true)]);
    let ids: Vec<String> = ordered.into_iter().map(|x| x.id).collect();
    assert_eq!(ids, vec!["b", "d", "a", "c"]);
}
