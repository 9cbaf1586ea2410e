//! Platform decisions: which desktop the app runs on, names shown for
//! monitors, the macOS version check, audio source selection per platform,
//! and the tray icon fallbacks.
//!
//! Environment variables, files and processes are read by the application
//! shell, which hands their values to these functions.

use vstd::prelude::*;
use crate::text::{contains, decimal, push_decimal, push_str, str_contains};

verus! {

/// What `str::to_uppercase` returns for a string, as a function of its characters.
pub uninterp spec fn unicode_uppercase(s: Seq<char>) -> Seq<char>;

/// Uppercases a string with std's `str::to_uppercase`.
///
/// Claimed: the result is `unicode_uppercase` of the argument (std's mapping
/// depends on the characters alone, not on a locale).
#[verifier::external_body]
fn to_uppercase(s: &str) -> (r: String)
    ensures
        r@ == unicode_uppercase(s@),
{
    s.to_uppercase()
}

/// The operating systems the application runs on.
#[derive(Debug, Clone, Copy, PartialEq, Eq, Structural)]
pub enum Platform {
    Linux,
    MacOS,
    Windows,
}

/// The platform's name as reported to the user interface.
pub fn get_platform(platform: Platform) -> (r: &'static str)
    ensures
        r@ == match platform {
            Platform::Linux => "linux"@,
            Platform::MacOS => "macos"@,
            Platform::Windows => "windows"@,
        },
{
    match platform {
        Platform::Linux => "linux",
        Platform::MacOS => "macos",
        Platform::Windows => "windows",
    }
}

/// Whether the desktop named by `XDG_CURRENT_DESKTOP` includes `name`,
/// compared in upper case; false when the variable is unset.
pub open spec fn desktop_is(xdg_current_desktop: Option<Seq<char>>, name: Seq<char>) -> bool {
    match xdg_current_desktop {
        Some(d) => contains(unicode_uppercase(d), name),
        None => false,
    }
}

/// The view of an optional string.
pub open spec fn opt_view(s: Option<&str>) -> Option<Seq<char>> {
    match s {
        Some(x) => Some(x@),
        None => None,
    }
}

/// Whether `XDG_CURRENT_DESKTOP` (upper-cased) contains `name`.
pub fn desktop_contains(xdg_current_desktop: Option<&str>, name: &str) -> (r: bool)
    ensures
        r == desktop_is(opt_view(xdg_current_desktop), name@),
{
    match xdg_current_desktop {
        Some(d) => {
            let upper = to_uppercase(d);
            str_contains(upper.as_str(), name)
        },
        None => false,
    }
}

/// Check if running on GNOME: on Linux, by `XDG_CURRENT_DESKTOP`; never
/// on other platforms.
pub fn is_gnome(platform: Platform, xdg_current_desktop: Option<&str>) -> (r: bool)
    ensures
        r == (platform == Platform::Linux && desktop_is(opt_view(xdg_current_desktop), "GNOME"@)),
{
    platform == Platform::Linux && desktop_contains(xdg_current_desktop, "GNOME")
}

/// Check if running on KDE: on Linux, by `XDG_CURRENT_DESKTOP`; never on
/// other platforms.
pub fn is_kde(platform: Platform, xdg_current_desktop: Option<&str>) -> (r: bool)
    ensures
        r == (platform == Platform::Linux && desktop_is(opt_view(xdg_current_desktop), "KDE"@)),
{
    platform == Platform::Linux && desktop_contains(xdg_current_desktop, "KDE")
}

/// Check if running on COSMIC: on Linux, by `XDG_CURRENT_DESKTOP`; never
/// on other platforms.
pub fn is_cosmic(platform: Platform, xdg_current_desktop: Option<&str>) -> (r: bool)
    ensures
        r == (platform == Platform::Linux && desktop_is(opt_view(xdg_current_desktop), "COSMIC"@)),
{
    platform == Platform::Linux && desktop_contains(xdg_current_desktop, "COSMIC")
}

/// Check if running on Cinnamon: on Linux, by `XDG_CURRENT_DESKTOP`; never
/// on other platforms.
pub fn is_cinnamon(platform: Platform, xdg_current_desktop: Option<&str>) -> (r: bool)
    ensures
        r == (platform == Platform::Linux && desktop_is(opt_view(xdg_current_desktop), "X-CINNAMON"@)),
{
    platform == Platform::Linux && desktop_contains(xdg_current_desktop, "X-CINNAMON")
}

/// Portal mode: the Linux desktops (GNOME, KDE, COSMIC) where recording
/// starts from the tray and the portal's own picker selects the source;
/// never on other platforms.
pub open spec fn spec_portal_mode(platform: Platform, xdg_current_desktop: Option<Seq<char>>) -> bool {
    platform == Platform::Linux && (desktop_is(xdg_current_desktop, "GNOME"@) || desktop_is(
        xdg_current_desktop,
        "KDE"@,
    ) || desktop_is(xdg_current_desktop, "COSMIC"@))
}

/// Portal mode is exactly being on Linux under GNOME, KDE or COSMIC: every
/// desktop that `is_gnome`, `is_kde` or `is_cosmic` recognises runs in
/// portal mode, and no other does; off Linux it never holds.
pub proof fn lemma_portal_mode_desktops(platform: Platform, xdg: Option<Seq<char>>)
    ensures
        (platform == Platform::Linux && desktop_is(xdg, "GNOME"@)) ==> spec_portal_mode(platform, xdg),
        (platform == Platform::Linux && desktop_is(xdg, "KDE"@)) ==> spec_portal_mode(platform, xdg),
        (platform == Platform::Linux && desktop_is(xdg, "COSMIC"@)) ==> spec_portal_mode(platform, xdg),
        spec_portal_mode(platform, xdg) ==> platform == Platform::Linux && (desktop_is(xdg, "GNOME"@)
            || desktop_is(xdg, "KDE"@) || desktop_is(xdg, "COSMIC"@)),
{
}

/// Check if running in portal mode (see `spec_portal_mode`).
pub fn is_portal_mode(platform: Platform, xdg_current_desktop: Option<&str>) -> (r: bool)
    ensures
        r == spec_portal_mode(platform, opt_view(xdg_current_desktop)),
{
    is_gnome(platform, xdg_current_desktop) || is_kde(platform, xdg_current_desktop) || is_cosmic(
        platform,
        xdg_current_desktop,
    )
}

/// Whether the tray is the main interface: the same desktops as portal mode.
pub fn is_tray_mode_desktop(platform: Platform, xdg_current_desktop: Option<&str>) -> (r: bool)
    ensures
        r == spec_portal_mode(platform, opt_view(xdg_current_desktop)),
{
    is_portal_mode(platform, xdg_current_desktop)
}

/// The desktop environment's name: on Linux, Hyprland when its instance
/// signature is set, then GNOME, KDE, COSMIC and Cinnamon by
/// `XDG_CURRENT_DESKTOP`; `unknown` otherwise and on other platforms.
pub open spec fn spec_desktop_environment(platform: Platform, hyprland: bool, xdg: Option<Seq<char>>) -> Seq<
    char,
> {
    if platform != Platform::Linux {
        "unknown"@
    } else if hyprland {
        "hyprland"@
    } else if desktop_is(xdg, "GNOME"@) {
        "gnome"@
    } else if desktop_is(xdg, "KDE"@) {
        "kde"@
    } else if desktop_is(xdg, "COSMIC"@) {
        "cosmic"@
    } else if desktop_is(xdg, "X-CINNAMON"@) {
        "cinnamon"@
    } else {
        "unknown"@
    }
}

/// Name the desktop environment, given the platform, whether
/// `HYPRLAND_INSTANCE_SIGNATURE` is set and the value of `XDG_CURRENT_DESKTOP`.
pub fn get_desktop_environment(
    platform: Platform,
    hyprland_signature_set: bool,
    xdg_current_desktop: Option<&str>,
) -> (r: &'static str)
    ensures
        r@ == spec_desktop_environment(platform, hyprland_signature_set, opt_view(xdg_current_desktop)),
{
    if platform != Platform::Linux {
        "unknown"
    } else if hyprland_signature_set {
        "hyprland"
    } else if is_gnome(platform, xdg_current_desktop) {
        "gnome"
    } else if is_kde(platform, xdg_current_desktop) {
        "kde"
    } else if is_cosmic(platform, xdg_current_desktop) {
        "cosmic"
    } else if is_cinnamon(platform, xdg_current_desktop) {
        "cinnamon"
    } else {
        "unknown"
    }
}

// ---------------------------------------------------------------------------
// Numbers in text
// ---------------------------------------------------------------------------

/// Whether `c` is an ASCII digit.
pub open spec fn is_digit(c: char) -> bool {
    '0' <= c && c <= '9'
}

/// The number written by the ASCII digits `s`.
pub open spec fn digits_value(s: Seq<char>) -> nat
    decreases s.len(),
{
    if s.len() == 0 {
        0
    } else {
        digits_value(s.drop_last()) * 10 + ((s.last() as u32) - 48) as nat
    }
}

/// `s` without a leading `+`.
pub open spec fn unsigned_part(s: Seq<char>) -> Seq<char> {
    if s.len() > 0 && s[0] == '+' {
        s.drop_first()
    } else {
        s
    }
}

/// Whether every character of `d` is an ASCII digit.
pub open spec fn all_digits(d: Seq<char>) -> bool {
    forall|i: int| 0 <= i < d.len() ==> is_digit(#[trigger] d[i])
}

/// What `u32::from_str` makes of `s`: an optional `+`, then one or more
/// ASCII digits whose value fits in a `u32`.
pub open spec fn spec_parse_u32(s: Seq<char>) -> Option<u32> {
    if unsigned_part(s).len() > 0 && all_digits(unsigned_part(s)) && digits_value(unsigned_part(s))
        <= u32::MAX {
        Some(digits_value(unsigned_part(s)) as u32)
    } else {
        None
    }
}

proof fn lemma_digits_value_step(s: Seq<char>, i: int)
    requires
        0 <= i < s.len(),
    ensures
        digits_value(s.subrange(0, i + 1)) == digits_value(s.subrange(0, i)) * 10 + ((s[i] as u32)
            - 48) as nat,
{
    assert(s.subrange(0, i + 1).drop_last() =~= s.subrange(0, i));
}

/// Parse decimal text as `u32` (see `spec_parse_u32`).
pub fn parse_u32(s: &[char]) -> (r: Option<u32>)
    ensures
        r == spec_parse_u32(s@),
{
    let start: usize = if s.len() > 0 && s[0] == '+' {
        1
    } else {
        0
    };
    let ghost d = unsigned_part(s@);
    assert(d =~= s@.subrange(start as int, s@.len() as int));
    if start >= s.len() {
        return None;
    }
    let mut value: u64 = 0;
    let mut i = start;
    while i < s.len()
        invariant
            start <= i <= s@.len(),
            d == s@.subrange(start as int, s@.len() as int),
            d == unsigned_part(s@),
            d.len() > 0,
            forall|k: int| 0 <= k < i - start ==> is_digit(#[trigger] d[k]),
            value == digits_value(d.subrange(0, i - start)),
            value <= u32::MAX,
        decreases s@.len() - i,
    {
        let c = s[i];
        if !('0' <= c && c <= '9') {
            assert(!is_digit(d[i - start]));
            assert(!all_digits(d));
            return None;
        }
        proof {
            lemma_digits_value_step(d, i - start);
        }
        let next = value * 10 + ((c as u32) - 48) as u64;
        if next > u32::MAX as u64 {
            proof {
                if all_digits(d) {
                    lemma_digits_prefix_mono(d, (i - start + 1) as int);
                    assert(digits_value(d) > u32::MAX);
                }
            }
            return None;
        }
        value = next;
        i = i + 1;
    }
    assert(d.subrange(0, d.len() as int) =~= d);
    Some(value as u32)
}

proof fn lemma_digits_prefix_mono(d: Seq<char>, k: int)
    requires
        0 <= k <= d.len(),
        all_digits(d),
    ensures
        digits_value(d.subrange(0, k)) <= digits_value(d),
    decreases d.len() - k,
{
    if k < d.len() {
        lemma_digits_prefix_mono(d, k + 1);
        lemma_digits_value_step(d, k);
    } else {
        assert(d.subrange(0, k) =~= d);
    }
}

/// The text before the first `.` of `s` (all of `s` when it holds none).
pub open spec fn first_field(s: Seq<char>) -> Seq<char>
    decreases s.len(),
{
    if s.len() == 0 {
        s
    } else if s[0] == '.' {
        Seq::empty()
    } else {
        seq![s[0]] + first_field(s.drop_first())
    }
}

proof fn lemma_first_field(s: Seq<char>, k: int)
    requires
        0 <= k <= s.len(),
        forall|i: int| 0 <= i < k ==> #[trigger] s[i] != '.',
        k < s.len() ==> s[k] == '.',
    ensures
        first_field(s) == s.subrange(0, k),
    decreases k,
{
    if k > 0 {
        lemma_first_field(s.drop_first(), k - 1);
        assert(seq![s[0]] + s.drop_first().subrange(0, k - 1) =~= s.subrange(0, k));
    } else if s.len() > 0 {
        assert(s.subrange(0, 0) =~= Seq::<char>::empty());
    }
}

/// Whether the macOS version reported by `sw_vers -productVersion` is 13 or
/// later: its major number, the text before the first `.` after trimming,
/// must parse as a number of at least 13. Anything unreadable counts as older.
pub open spec fn spec_macos_13_or_later(version_output: Seq<char>) -> bool {
    match spec_parse_u32(first_field(crate::text::trim(version_output))) {
        Some(major) => major >= 13,
        None => false,
    }
}

/// Check if system audio capture is available: ScreenCaptureKit audio
/// capture requires macOS 13 or later (see `spec_macos_13_or_later`).
pub fn is_system_audio_available(version_output: &str) -> (r: bool)
    ensures
        r == spec_macos_13_or_later(version_output@),
{
    let chars = crate::text::chars_of(version_output);
    let t = crate::text::trim_chars(chars.as_slice());
    let mut k: usize = 0;
    while k < t.len() && t[k] != '.'
        invariant
            k <= t@.len(),
            forall|i: int| 0 <= i < k ==> #[trigger] t@[i] != '.',
        decreases t@.len() - k,
    {
        k = k + 1;
    }
    proof {
        lemma_first_field(t@, k as int);
    }
    let mut major: Vec<char> = Vec::new();
    let mut i: usize = 0;
    while i < k
        invariant
            i <= k <= t@.len(),
            major@ == t@.subrange(0, i as int),
        decreases k - i,
    {
        major.push(t[i]);
        i = i + 1;
    }
    match parse_u32(major.as_slice()) {
        Some(m) => m >= 13,
        None => false,
    }
}

// ---------------------------------------------------------------------------
// Monitors
// ---------------------------------------------------------------------------

/// Information about a display monitor.
#[derive(Debug, Clone)]
pub struct MonitorInfo {
    /// Unique identifier (device name)
    pub id: String,
    /// Display name for UI
    pub name: String,
    /// Virtual screen X position
    pub x: i32,
    /// Virtual screen Y position
    pub y: i32,
    /// Width in pixels
    pub width: u32,
    /// Height in pixels
    pub height: u32,
    /// Whether this is the primary monitor
    pub is_primary: bool,
}

/// The ASCII digits of `s`, in order.
pub open spec fn ascii_digits(s: Seq<char>) -> Seq<char> {
    s.filter(|c: char| is_digit(c))
}

/// The name shown for a monitor: `Display N` when the digits of its device
/// name (such as `\\.\DISPLAY1`) read as a number, else the device name;
/// ` (Primary)` is appended for the primary monitor.
pub open spec fn spec_monitor_name(device_name: Seq<char>, is_primary: bool) -> Seq<char> {
    let suffix = if is_primary {
        " (Primary)"@
    } else {
        Seq::<char>::empty()
    };
    match spec_parse_u32(ascii_digits(device_name)) {
        Some(n) => "Display "@ + decimal(n as nat) + suffix,
        None => device_name + suffix,
    }
}

/// Format a monitor's display name (see `spec_monitor_name`).
pub fn format_monitor_name(device_name: &str, is_primary: bool) -> (r: String)
    ensures
        r@ == spec_monitor_name(device_name@, is_primary),
{
    let chars = crate::text::chars_of(device_name);
    let mut digits: Vec<char> = Vec::new();
    let mut i: usize = 0;
    while i < chars.len()
        invariant
            i <= chars@.len(),
            chars@ == device_name@,
            digits@ == chars@.subrange(0, i as int).filter(|c: char| is_digit(c)),
        decreases chars@.len() - i,
    {
        let c = chars[i];
        proof {
            assert(chars@.subrange(0, i + 1).drop_last() =~= chars@.subrange(0, i as int));
            assert(chars@.subrange(0, i + 1).last() == c);
            reveal(Seq::filter);
        }
        if '0' <= c && c <= '9' {
            digits.push(c);
        }
        i = i + 1;
    }
    assert(chars@.subrange(0, chars@.len() as int) =~= chars@);
    let mut out = String::new();
    match parse_u32(digits.as_slice()) {
        Some(n) => {
            push_str(&mut out, "Display ");
            push_decimal(&mut out, n as u64);
        },
        None => push_str(&mut out, device_name),
    }
    if is_primary {
        push_str(&mut out, " (Primary)");
    }
    proof {
        broadcast use vstd::string::group_string_axioms;
        reveal_strlit("");
        assert(out@ =~= spec_monitor_name(device_name@, is_primary));
    }
    out
}


/// The monitors with every primary monitor first, each group in its input
/// order (a stable sort on "is primary", as `list_monitors` orders them).
pub open spec fn spec_primary_first(monitors: Seq<MonitorInfo>) -> Seq<MonitorInfo> {
    monitors.filter(|m: MonitorInfo| m.is_primary) + monitors.filter(|m: MonitorInfo| !m.is_primary)
}

/// Order monitors with the primary ones first (see `spec_primary_first`).
pub fn primary_first(monitors: Vec<MonitorInfo>) -> (r: Vec<MonitorInfo>)
    ensures
        r@ == spec_primary_first(monitors@),
{
    let ghost orig = monitors@;
    let mut rest = monitors;
    let mut primary: Vec<MonitorInfo> = Vec::new();
    let mut others: Vec<MonitorInfo> = Vec::new();
    let ghost mut i: int = 0;
    proof {
        reveal(Seq::filter);
        assert(orig.subrange(0, 0) =~= Seq::<MonitorInfo>::empty());
        assert(rest@ =~= orig.subrange(0, orig.len() as int));
    }
    while rest.len() > 0
        invariant
            0 <= i <= orig.len(),
            rest@ == orig.subrange(i, orig.len() as int),
            primary@ == orig.subrange(0, i).filter(|m: MonitorInfo| m.is_primary),
            others@ == orig.subrange(0, i).filter(|m: MonitorInfo| !m.is_primary),
        decreases rest@.len(),
    {
        let m = rest.remove(0);
        proof {
            reveal(Seq::filter);
            assert(orig.subrange(0, i + 1).drop_last() =~= orig.subrange(0, i));
            assert(orig.subrange(0, i + 1).last() == m);
        }
        if m.is_primary {
            primary.push(m);
        } else {
            others.push(m);
        }
        proof {
            i = i + 1;
            assert(rest@ =~= orig.subrange(i, orig.len() as int));
        }
    }
    assert(orig.subrange(0, orig.len() as int) =~= orig);
    primary.append(&mut others);
    primary
}

proof fn lemma_partition_len(s: Seq<MonitorInfo>)
    ensures
        s.filter(|m: MonitorInfo| m.is_primary).len() + s.filter(|m: MonitorInfo| !m.is_primary).len()
            == s.len(),
    decreases s.len(),
{
    reveal(Seq::filter);
    if s.len() > 0 {
        lemma_partition_len(s.drop_last());
    }
}

/// Ordering primary monitors first keeps every monitor, adds none and drops
/// none, and when any monitor is primary the first one of the result is.
pub proof fn lemma_primary_first_leads(monitors: Seq<MonitorInfo>)
    ensures
        spec_primary_first(monitors).len() == monitors.len(),
        forall|m: MonitorInfo|
            #[trigger] spec_primary_first(monitors).contains(m) <==> monitors.contains(m),
        (exists|i: int| 0 <= i < monitors.len() && monitors[i].is_primary) ==> spec_primary_first(
            monitors,
        )[0].is_primary,
{
    let p = |m: MonitorInfo| m.is_primary;
    let q = |m: MonitorInfo| !m.is_primary;
    let r = spec_primary_first(monitors);
    lemma_partition_len(monitors);
    assert forall|m: MonitorInfo| #[trigger] r.contains(m) <==> monitors.contains(m) by {
        if r.contains(m) {
            let k = choose|k: int| 0 <= k < r.len() && r[k] == m;
            if k < monitors.filter(p).len() {
                assert(monitors.filter(p)[k] == m);
                monitors.lemma_filter_contains_rev(p, m);
            } else {
                assert(monitors.filter(q)[k - monitors.filter(p).len()] == m);
                monitors.lemma_filter_contains_rev(q, m);
            }
        }
        if monitors.contains(m) {
            let k = choose|k: int| 0 <= k < monitors.len() && monitors[k] == m;
            if m.is_primary {
                monitors.lemma_filter_contains(p, k);
                let j = choose|j: int|
                    0 <= j < monitors.filter(p).len() && monitors.filter(p)[j] == m;
                assert(r[j] == m);
            } else {
                monitors.lemma_filter_contains(q, k);
                let j = choose|j: int|
                    0 <= j < monitors.filter(q).len() && monitors.filter(q)[j] == m;
                assert(r[monitors.filter(p).len() + j] == m);
            }
        }
    }
    if exists|i: int| 0 <= i < monitors.len() && monitors[i].is_primary {
        let i = choose|i: int| 0 <= i < monitors.len() && monitors[i].is_primary;
        monitors.lemma_filter_contains(p, i);
        assert(monitors.filter(p).len() > 0);
        monitors.lemma_filter_pred(p, 0);
        assert(r[0] == monitors.filter(p)[0]);
    }
}

// ---------------------------------------------------------------------------
// Audio sources
// ---------------------------------------------------------------------------

/// How audio is captured for a recording.
#[derive(Debug, Clone)]
pub enum AudioCapturePlan {
    /// Capture one source.
    Single(String),
    /// Capture system audio and microphone, mixed, with optional echo cancellation.
    Dual { system: String, microphone: String, aec: bool },
}

/// Errors of capture operations.
#[derive(Debug, Clone)]
pub enum CaptureError {
    /// The requested region is invalid.
    InvalidRegion(String),
    /// The window or monitor to capture does not exist.
    TargetNotFound(String),
    /// Audio capture cannot start.
    AudioError(String),
    /// The platform reported an error.
    PlatformError(String),
    /// A parameter, such as a monitor id, cannot be read.
    InvalidParameters(String),
}

/// macOS platform capture backend using ScreenCaptureKit.
pub struct MacOSBackend;

impl MacOSBackend {
    /// Create a new macOS backend.
    pub fn new() -> (r: Self) {
        MacOSBackend
    }

    /// Check if running on a supported macOS version (12.3+): builds for
    /// macOS are always taken to be supported.
    pub fn is_supported_version() -> (r: bool)
        ensures
            r,
    {
        true
    }

    /// Choose the audio capture: macOS mixes no sources, so only the system
    /// source is captured; an error when there is none.
    pub fn start_audio_capture_dual(
        &self,
        system_source_id: Option<&str>,
        _mic_source_id: Option<&str>,
        _aec_enabled: bool,
    ) -> (r: Result<AudioCapturePlan, CaptureError>)
        ensures
            match system_source_id {
                Some(s) => r matches Ok(AudioCapturePlan::Single(id)) && id@ == s@,
                None => r matches Err(CaptureError::AudioError(m)) && m@ == "No audio source specified"@,
            },
    {
        match system_source_id {
            Some(s) => Ok(AudioCapturePlan::Single(s.to_string())),
            None => Err(CaptureError::AudioError("No audio source specified".to_string())),
        }
    }
}

/// Windows platform capture backend.
pub struct WindowsBackend;

impl WindowsBackend {
    /// Create a new Windows backend.
    pub fn new() -> (r: Self) {
        WindowsBackend
    }

    /// Choose the audio capture: one source alone is captured directly, both
    /// are mixed (with echo cancellation when enabled), and no source is an error.
    pub fn start_audio_capture_dual(
        &self,
        system_source_id: Option<&str>,
        mic_source_id: Option<&str>,
        aec_enabled: bool,
    ) -> (r: Result<AudioCapturePlan, CaptureError>)
        ensures
            match (system_source_id, mic_source_id) {
                (Some(s), None) => r matches Ok(AudioCapturePlan::Single(id)) && id@ == s@,
                (None, Some(m)) => r matches Ok(AudioCapturePlan::Single(id)) && id@ == m@,
                (Some(s), Some(m)) => r matches Ok(AudioCapturePlan::Dual { system, microphone, aec })
                    && system@ == s@ && microphone@ == m@ && aec == aec_enabled,
                (None, None) => r matches Err(CaptureError::AudioError(msg)) && msg@
                    == "No audio source specified"@,
            },
    {
        match (system_source_id, mic_source_id) {
            (Some(s), None) => Ok(AudioCapturePlan::Single(s.to_string())),
            (None, Some(m)) => Ok(AudioCapturePlan::Single(m.to_string())),
            (Some(s), Some(m)) => Ok(
                AudioCapturePlan::Dual {
                    system: s.to_string(),
                    microphone: m.to_string(),
                    aec: aec_enabled,
                },
            ),
            (None, None) => Err(CaptureError::AudioError("No audio source specified".to_string())),
        }
    }
}

/// Frames per second requested from the macOS capture stream.
pub const CAPTURE_FPS: u32 = 30;

/// macOS thumbnail capture.
pub struct MacOSThumbnailCapture;

impl MacOSThumbnailCapture {
    /// Create a new macOS thumbnail capture instance.
    pub fn new() -> (r: Self) {
        MacOSThumbnailCapture
    }
}

/// Windows thumbnail capture.
pub struct WindowsThumbnailCapture;

impl WindowsThumbnailCapture {
    /// Create a new Windows thumbnail capture instance.
    pub fn new() -> (r: Self) {
        WindowsThumbnailCapture
    }
}

// ---------------------------------------------------------------------------
// Tray icon
// ---------------------------------------------------------------------------

/// Side of the fallback tray icon, in pixels.
pub const FALLBACK_ICON_SIZE: u32 = 22;

/// Whether pixel (`x`, `y`) of the 22-pixel fallback icon lies inside its
/// circle: centre (10.5, 10.5), radius 9, in doubled coordinates.
pub open spec fn in_fallback_circle(x: int, y: int) -> bool {
    (2 * x - 21) * (2 * x - 21) + (2 * y - 21) * (2 * y - 21) < 324
}

/// Byte `i` of the fallback tray icon: an RGBA disc of `color`, transparent outside.
pub open spec fn fallback_icon_byte(color: (u8, u8, u8), i: int) -> u8 {
    let p = i / 4;
    let x = p % 22;
    let y = p / 22;
    if in_fallback_circle(x, y) {
        if i % 4 == 0 {
            color.0
        } else if i % 4 == 1 {
            color.1
        } else if i % 4 == 2 {
            color.2
        } else {
            255u8
        }
    } else {
        0u8
    }
}

/// Create a fallback tray icon: a 22x22 RGBA filled circle of `color`.
pub fn create_fallback_tray_icon(color: (u8, u8, u8)) -> (rgba: Vec<u8>)
    ensures
        rgba@.len() == 22 * 22 * 4,
        forall|i: int| 0 <= i < rgba@.len() ==> #[trigger] rgba@[i] == fallback_icon_byte(color, i),
{
    let mut rgba: Vec<u8> = Vec::new();
    let mut y: i64 = 0;
    while y < 22
        invariant
            0 <= y <= 22,
            rgba@.len() == y * 22 * 4,
            forall|i: int| 0 <= i < rgba@.len() ==> #[trigger] rgba@[i] == fallback_icon_byte(color, i),
        decreases 22 - y,
    {
        let mut x: i64 = 0;
        while x < 22
            invariant
                0 <= y < 22,
                0 <= x <= 22,
                rgba@.len() == y * 22 * 4 + x * 4,
                forall|i: int| 0 <= i < rgba@.len() ==> #[trigger] rgba@[i] == fallback_icon_byte(color, i),
            decreases 22 - x,
        {
            let dx = 2 * x - 21;
            let dy = 2 * y - 21;
            assert(0 <= dx * dx <= 529 && 0 <= dy * dy <= 529) by (nonlinear_arith)
                requires
                    -21 <= dx <= 23,
                    -21 <= dy <= 23,
            ;
            let inside = dx * dx + dy * dy < 324;
            let base = rgba.len();
            if inside {
                rgba.push(color.0);
                rgba.push(color.1);
                rgba.push(color.2);
                rgba.push(255u8);
            } else {
                rgba.push(0u8);
                rgba.push(0u8);
                rgba.push(0u8);
                rgba.push(0u8);
            }
            proof {
                assert forall|i: int| base <= i < base + 4 implies #[trigger] rgba@[i] == fallback_icon_byte(color, i) by {
                    assert(i / 4 == y * 22 + x);
                    assert((y * 22 + x) % 22 == x);
                    assert((y * 22 + x) / 22 == y);
                    assert(i % 4 == i - base);
                }
            }
            x = x + 1;
        }
        y = y + 1;
    }
    rgba
}

/// The places a tray icon file is looked for, in order: the installed
/// resources (`icons/tray`, then `icons`) when their directory is known,
/// the same directories relative to the working directory and to
/// `src-tauri`, then under the source tree `crate_dir`.
pub open spec fn spec_icon_candidates(resource_dir: Option<Seq<char>>, crate_dir: Seq<char>, icon: Seq<char>) -> Seq<
    Seq<char>,
> {
    (match resource_dir {
        Some(r) => seq![
            crate::text::path_join(r, "icons/tray/"@ + icon),
            crate::text::path_join(r, "icons/"@ + icon),
        ],
        None => Seq::empty(),
    }) + seq![
        "icons/tray/"@ + icon,
        "src-tauri/icons/tray/"@ + icon,
        "icons/"@ + icon,
        "src-tauri/icons/"@ + icon,
        crate_dir + "/icons/tray/"@ + icon,
        crate_dir + "/icons/"@ + icon,
    ]
}

fn concat(a: &str, b: &str) -> (r: String)
    ensures
        r@ == a@ + b@,
{
    let mut s = String::new();
    push_str(&mut s, a);
    push_str(&mut s, b);
    s
}

/// The candidate paths of a tray icon (see `spec_icon_candidates`).
pub fn tray_icon_candidates(resource_dir: Option<&str>, crate_dir: &str, icon_name: &str) -> (r: Vec<
    String,
>)
    ensures
        r@.map_values(|s: String| s@) == spec_icon_candidates(
            opt_view(resource_dir),
            crate_dir@,
            icon_name@,
        ),
{
    let mut out: Vec<String> = Vec::new();
    let tray_rel = concat("icons/tray/", icon_name);
    let main_rel = concat("icons/", icon_name);
    if let Some(r) = resource_dir {
        out.push(crate::text::join_path(r, tray_rel.as_str()));
        out.push(crate::text::join_path(r, main_rel.as_str()));
    }
    out.push(concat("icons/tray/", icon_name));
    out.push(concat("src-tauri/icons/tray/", icon_name));
    out.push(concat("icons/", icon_name));
    out.push(concat("src-tauri/icons/", icon_name));
    let m1 = concat(crate_dir, "/icons/tray/");
    out.push(concat(m1.as_str(), icon_name));
    let m2 = concat(crate_dir, "/icons/");
    out.push(concat(m2.as_str(), icon_name));
    proof {
        assert(out@.map_values(|s: String| s@) =~= spec_icon_candidates(
            opt_view(resource_dir),
            crate_dir@,
            icon_name@,
        ));
    }
    out
}

/// Whether an audio source records what is played (an output monitor) or
/// what a microphone hears.
#[derive(Debug, Clone, Copy, PartialEq, Eq, Structural)]
pub enum AudioSourceType {
    Input,
    Output,
}

/// An audio source offered to the user.
#[derive(Debug, Clone)]
pub struct AudioSource {
    pub id: String,
    pub name: String,
    pub source_type: AudioSourceType,
}

/// What the system reports of an audio device.
#[derive(Debug, Clone)]
pub struct AudioDevice {
    pub id: u32,
    /// `None` when the device's name cannot be read.
    pub name: Option<String>,
    pub has_output_streams: bool,
    pub has_input_streams: bool,
}

/// The sources offered for one device: its monitor (named `<name> (Monitor)`)
/// if it plays sound, then its input if it records; nothing for an unnamed device.
pub open spec fn device_sources(d: AudioDevice) -> Seq<(Seq<char>, Seq<char>, AudioSourceType)> {
    match d.name {
        None => Seq::empty(),
        Some(n) => (if d.has_output_streams {
            seq![(decimal(d.id as nat), n@ + " (Monitor)"@, AudioSourceType::Output)]
        } else {
            Seq::empty()
        }) + (if d.has_input_streams {
            seq![(decimal(d.id as nat), n@, AudioSourceType::Input)]
        } else {
            Seq::empty()
        }),
    }
}

/// The sources offered for the first `k` devices.
pub open spec fn devices_sources(ds: Seq<AudioDevice>, k: nat) -> Seq<(Seq<char>, Seq<char>, AudioSourceType)>
    decreases k,
{
    if k == 0 || k > ds.len() {
        Seq::empty()
    } else {
        devices_sources(ds, (k - 1) as nat) + device_sources(ds[k - 1])
    }
}

/// The id, name and type of each source.
pub open spec fn source_views(v: Seq<AudioSource>) -> Seq<(Seq<char>, Seq<char>, AudioSourceType)> {
    v.map_values(|a: AudioSource| (a.id@, a.name@, a.source_type))
}

fn push_source(out: &mut Vec<AudioSource>, id: u32, name: String, source_type: AudioSourceType)
    ensures
        source_views(final(out)@) == source_views(old(out)@).push((decimal(id as nat), name@, source_type)),
{
    let mut id_text = String::new();
    push_decimal(&mut id_text, id as u64);
    let ghost n = name@;
    out.push(AudioSource { id: id_text, name, source_type });
    assert(source_views(out@) =~= source_views(old(out)@).push((decimal(id as nat), n, source_type)));
}

/// The audio sources offered for the devices the system reports (see
/// `device_sources`), in device order.
pub fn audio_sources_from_devices(devices: &Vec<AudioDevice>) -> (r: Vec<AudioSource>)
    ensures
        source_views(r@) == devices_sources(devices@, devices@.len()),
{
    let mut out: Vec<AudioSource> = Vec::new();
    assert(source_views(out@) =~= devices_sources(devices@, 0));
    let mut i: usize = 0;
    while i < devices.len()
        invariant
            i <= devices@.len(),
            source_views(out@) == devices_sources(devices@, i as nat),
        decreases devices@.len() - i,
    {
        let d = &devices[i];
        let ghost before = source_views(out@);
        match &d.name {
            None => {},
            Some(n) => {
                if d.has_output_streams {
                    let mut name = String::new();
                    push_str(&mut name, n.as_str());
                    push_str(&mut name, " (Monitor)");
                    push_source(&mut out, d.id, name, AudioSourceType::Output);
                }
                if d.has_input_streams {
                    let name = n.clone();
                    push_source(&mut out, d.id, name, AudioSourceType::Input);
                }
            },
        }
        assert(source_views(out@) =~= before + device_sources(devices@[i as int]));
        i = i + 1;
    }
    out
}

} // verus!
