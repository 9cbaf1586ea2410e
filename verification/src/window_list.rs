//! The window list offered for recording on macOS: which of the windows that
//! ScreenCaptureKit reports are user windows, and the order they are shown in
//! (by process name, then by title).
//!
//! Enumerating the windows is done by the application shell, which hands
//! each window's plain values to `list_windows_from`.

use vstd::prelude::*;
use crate::text::{push_str, str_eq};

verus! {

/// A window as ScreenCaptureKit reports it.
#[derive(Debug, Clone)]
pub struct ShareableWindow {
    pub window_id: u32,
    pub title: Option<String>,
    pub is_on_screen: bool,
    pub window_layer: i64,
    pub width: u32,
    pub height: u32,
    /// The owning application, when there is one.
    pub owner: Option<WindowOwner>,
}

/// The application that owns a window.
#[derive(Debug, Clone)]
pub struct WindowOwner {
    pub application_name: Option<String>,
    pub bundle_identifier: Option<String>,
}

/// A window offered for recording.
#[derive(Debug, Clone)]
pub struct WindowInfo {
    pub handle: isize,
    pub title: String,
    pub process_name: String,
}

/// Whether `p` begins `s`.
pub open spec fn starts_with(s: Seq<char>, p: Seq<char>) -> bool {
    p.len() <= s.len() && s.subrange(0, p.len() as int) == p
}

/// Whether a bundle identifier (with the window's title) names a macOS
/// system component rather than a user application.
pub open spec fn is_system_bundle(bundle: Seq<char>, title: Seq<char>) -> bool {
    ||| starts_with(bundle, "com.apple.dock"@)
    ||| starts_with(bundle, "com.apple.controlcenter"@)
    ||| starts_with(bundle, "com.apple.notificationcenterui"@)
    ||| starts_with(bundle, "com.apple.systemuiserver"@)
    ||| starts_with(bundle, "com.apple.Spotlight"@)
    ||| starts_with(bundle, "com.apple.WindowManager"@)
    ||| (bundle == "com.apple.finder"@ && title == "Desktop"@)
}

/// The entry shown for a window, if it is listed: it has a title, is on
/// screen at the normal layer, is at least 50x50, and belongs to an
/// application that is not a system component. The process name is the
/// application's name, `Unknown` when it has none.
pub open spec fn spec_window_entry(w: ShareableWindow) -> Option<(isize, Seq<char>, Seq<char>)> {
    match w.title {
        Some(t) => match w.owner {
            Some(o) => {
                let name = match o.application_name {
                    Some(n) => n@,
                    None => "Unknown"@,
                };
                let bundle = match o.bundle_identifier {
                    Some(b) => b@,
                    None => Seq::empty(),
                };
                if t@.len() > 0 && w.is_on_screen && w.window_layer == 0 && w.width >= 50 && w.height
                    >= 50 && !is_system_bundle(bundle, t@) {
                    Some((w.window_id as isize, t@, name))
                } else {
                    None
                }
            },
            None => None,
        },
        None => None,
    }
}

/// A listed window is shown under its owner's application name, or
/// `Unknown` when the application has none, with its own title and id; it
/// is listed only when it has a non-empty title, is on screen at the normal
/// layer, is at least 50x50 and has an owner.
pub proof fn lemma_window_entry_fields(w: ShareableWindow)
    ensures
        spec_window_entry(w) matches Some((h, t, p)) ==> {
            &&& w.owner is Some
            &&& p == (match w.owner.unwrap().application_name {
                Some(n) => n@,
                None => "Unknown"@,
            })
            &&& w.title is Some && t == w.title.unwrap()@ && t.len() > 0
            &&& h == w.window_id as isize
            &&& w.is_on_screen && w.window_layer == 0 && w.width >= 50 && w.height >= 50
        },
{
}

fn str_starts_with(s: &str, p: &str) -> (r: bool)
    ensures
        r == starts_with(s@, p@),
{
    let n = s.unicode_len();
    let m = p.unicode_len();
    if m > n {
        return false;
    }
    let mut i: usize = 0;
    while i < m
        invariant
            n == s@.len(),
            m == p@.len(),
            m <= n,
            i <= m,
            s@.subrange(0, i as int) == p@.subrange(0, i as int),
        decreases m - i,
    {
        if s.get_char(i) != p.get_char(i) {
            assert(s@.subrange(0, m as int)[i as int] != p@[i as int]);
            return false;
        }
        assert(s@.subrange(0, i + 1) =~= s@.subrange(0, i as int).push(s@[i as int]));
        assert(p@.subrange(0, i + 1) =~= p@.subrange(0, i as int).push(p@[i as int]));
        i = i + 1;
    }
    assert(p@.subrange(0, m as int) =~= p@);
    true
}

fn system_bundle(bundle: &str, title: &str) -> (r: bool)
    ensures
        r == is_system_bundle(bundle@, title@),
{
    str_starts_with(bundle, "com.apple.dock") || str_starts_with(bundle, "com.apple.controlcenter")
        || str_starts_with(bundle, "com.apple.notificationcenterui") || str_starts_with(
        bundle,
        "com.apple.systemuiserver",
    ) || str_starts_with(bundle, "com.apple.Spotlight") || str_starts_with(
        bundle,
        "com.apple.WindowManager",
    ) || (str_eq(bundle, "com.apple.finder") && str_eq(title, "Desktop"))
}

/// The entry shown for a window, if it is listed (see `spec_window_entry`).
pub fn window_entry(w: &ShareableWindow) -> (r: Option<WindowInfo>)
    ensures
        match spec_window_entry(*w) {
            Some((h, t, p)) => r matches Some(e) && e.handle == h && e.title@ == t && e.process_name@
                == p,
            None => r is None,
        },
{
    let t = match &w.title {
        Some(t) => t,
        None => {
            return None;
        },
    };
    let o = match &w.owner {
        Some(o) => o,
        None => {
            return None;
        },
    };
    if t.unicode_len() == 0 || !w.is_on_screen || w.window_layer != 0 || w.width < 50 || w.height
        < 50 {
        return None;
    }
    proof {
        reveal_strlit("");
        assert(""@ =~= Seq::<char>::empty());
    }
    let bundle_is_system = match &o.bundle_identifier {
        Some(b) => system_bundle(b.as_str(), t.as_str()),
        None => system_bundle("", t.as_str()),
    };
    if bundle_is_system {
        return None;
    }
    let mut name = String::new();
    match &o.application_name {
        Some(n) => push_str(&mut name, n.as_str()),
        None => push_str(&mut name, "Unknown"),
    }
    let mut title = String::new();
    push_str(&mut title, t.as_str());
    Some(WindowInfo { handle: w.window_id as isize, title, process_name: name })
}

/// Whether `a` comes before `b` in the order `str::cmp` gives (character
/// codes compared in turn; a proper prefix comes first).
pub open spec fn text_lt(a: Seq<char>, b: Seq<char>) -> bool
    decreases a.len(),
{
    if a.len() == 0 {
        b.len() > 0
    } else if b.len() == 0 {
        false
    } else if a[0] != b[0] {
        (a[0] as u32) < (b[0] as u32)
    } else {
        text_lt(a.drop_first(), b.drop_first())
    }
}

fn str_lt(a: &str, b: &str) -> (r: bool)
    ensures
        r == text_lt(a@, b@),
{
    let n = a.unicode_len();
    let m = b.unicode_len();
    let mut i: usize = 0;
    assert(a@.skip(0) =~= a@);
    assert(b@.skip(0) =~= b@);
    while i < n && i < m
        invariant
            n == a@.len(),
            m == b@.len(),
            i <= n,
            i <= m,
            text_lt(a@, b@) == text_lt(a@.skip(i as int), b@.skip(i as int)),
        decreases n - i,
    {
        let x = a.get_char(i);
        let y = b.get_char(i);
        assert(a@.skip(i as int)[0] == x);
        assert(b@.skip(i as int)[0] == y);
        if x != y {
            return (x as u32) < (y as u32);
        }
        assert(a@.skip(i as int).drop_first() =~= a@.skip(i + 1));
        assert(b@.skip(i as int).drop_first() =~= b@.skip(i + 1));
        i = i + 1;
    }
    i == n && i < m
}

/// The order of the window list: by process name, then by title.
pub open spec fn window_lt(a: (isize, Seq<char>, Seq<char>), b: (isize, Seq<char>, Seq<char>)) -> bool {
    text_lt(a.2, b.2) || (a.2 == b.2 && text_lt(a.1, b.1))
}

/// `x` put into `s` after every element that does not come after it.
pub open spec fn sorted_insert(
    s: Seq<(isize, Seq<char>, Seq<char>)>,
    x: (isize, Seq<char>, Seq<char>),
) -> Seq<(isize, Seq<char>, Seq<char>)>
    decreases s.len(),
{
    if s.len() == 0 {
        seq![x]
    } else if window_lt(x, s[0]) {
        seq![x] + s
    } else {
        seq![s[0]] + sorted_insert(s.drop_first(), x)
    }
}

/// The entries sorted by `window_lt`, keeping the order of entries that
/// compare equal (a stable sort).
pub open spec fn sort_entries(s: Seq<(isize, Seq<char>, Seq<char>)>) -> Seq<(isize, Seq<char>, Seq<char>)>
    decreases s.len(),
{
    if s.len() == 0 {
        s
    } else {
        sorted_insert(sort_entries(s.drop_last()), s.last())
    }
}

/// The listed entries of the windows, in order.
pub open spec fn listed_entries(ws: Seq<ShareableWindow>) -> Seq<(isize, Seq<char>, Seq<char>)>
    decreases ws.len(),
{
    if ws.len() == 0 {
        Seq::empty()
    } else {
        let rest = listed_entries(ws.drop_last());
        match spec_window_entry(ws.last()) {
            Some(e) => rest.push(e),
            None => rest,
        }
    }
}

/// The window list: the listed windows sorted by process name, then title.
pub open spec fn spec_window_list(ws: Seq<ShareableWindow>) -> Seq<(isize, Seq<char>, Seq<char>)> {
    sort_entries(listed_entries(ws))
}

/// The entry of a `WindowInfo`.
pub open spec fn entry_of(w: WindowInfo) -> (isize, Seq<char>, Seq<char>) {
    (w.handle, w.title@, w.process_name@)
}

proof fn lemma_sorted_insert_at(s: Seq<(isize, Seq<char>, Seq<char>)>, x: (isize, Seq<char>, Seq<char>), p: int)
    requires
        0 <= p <= s.len(),
        forall|k: int| 0 <= k < p ==> !window_lt(x, #[trigger] s[k]),
        p < s.len() ==> window_lt(x, s[p]),
    ensures
        sorted_insert(s, x) == s.subrange(0, p).push(x) + s.subrange(p, s.len() as int),
    decreases s.len(),
{
    if s.len() == 0 {
        assert(s.subrange(0, p).push(x) + s.subrange(p, s.len() as int) =~= seq![x]);
    } else if p == 0 {
        assert(s.subrange(0, p).push(x) + s.subrange(p, s.len() as int) =~= seq![x] + s);
    } else {
        let t = s.drop_first();
        assert forall|k: int| 0 <= k < p - 1 implies !window_lt(x, #[trigger] t[k]) by {
            assert(t[k] == s[k + 1]);
        }
        lemma_sorted_insert_at(t, x, p - 1);
        assert(seq![s[0]] + (t.subrange(0, p - 1).push(x) + t.subrange(p - 1, t.len() as int))
            =~= s.subrange(0, p).push(x) + s.subrange(p, s.len() as int));
    }
}

/// The window list from the windows ScreenCaptureKit reports (see
/// `spec_window_list`).
pub fn list_windows_from(windows: &Vec<ShareableWindow>) -> (r: Vec<WindowInfo>)
    ensures
        r@.map_values(|w: WindowInfo| entry_of(w)) == spec_window_list(windows@),
{
    let mut out: Vec<WindowInfo> = Vec::new();
    let mut i: usize = 0;
    while i < windows.len()
        invariant
            i <= windows@.len(),
            out@.map_values(|w: WindowInfo| entry_of(w)) == sort_entries(
                listed_entries(windows@.subrange(0, i as int)),
            ),
        decreases windows@.len() - i,
    {
        let ghost before = out@.map_values(|w: WindowInfo| entry_of(w));
        proof {
            assert(windows@.subrange(0, i + 1).drop_last() =~= windows@.subrange(0, i as int));
            assert(windows@.subrange(0, i + 1).last() == windows@[i as int]);
        }
        match window_entry(&windows[i]) {
            Some(e) => {
                let ghost x = entry_of(e);
                let mut p: usize = 0;
                while p < out.len() && !(str_lt(e.process_name.as_str(), out[p].process_name.as_str())
                    || (str_eq(e.process_name.as_str(), out[p].process_name.as_str()) && str_lt(
                    e.title.as_str(),
                    out[p].title.as_str(),
                )))
                    invariant
                        p <= out@.len(),
                        before == out@.map_values(|w: WindowInfo| entry_of(w)),
                        x == entry_of(e),
                        forall|k: int| 0 <= k < p ==> !window_lt(x, #[trigger] before[k]),
                    decreases out@.len() - p,
                {
                    assert(before[p as int] == entry_of(out@[p as int]));
                    p = p + 1;
                }
                proof {
                    if p < out@.len() {
                        assert(before[p as int] == entry_of(out@[p as int]));
                    }
                    lemma_sorted_insert_at(before, x, p as int);
                }
                out.insert(p, e);
                proof {
                    assert(out@.map_values(|w: WindowInfo| entry_of(w)) =~= before.subrange(
                        0,
                        p as int,
                    ).push(x) + before.subrange(p as int, before.len() as int));
                    assert(listed_entries(windows@.subrange(0, i + 1)) == listed_entries(
                        windows@.subrange(0, i as int),
                    ).push(x));
                    assert(listed_entries(windows@.subrange(0, i + 1)).drop_last() =~= listed_entries(
                        windows@.subrange(0, i as int),
                    ));
                }
            },
            None => {
                proof {
                    assert(listed_entries(windows@.subrange(0, i + 1)) == listed_entries(
                        windows@.subrange(0, i as int),
                    ));
                }
            },
        }
        i = i + 1;
    }
    assert(windows@.subrange(0, windows@.len() as int) =~= windows@);
    out
}

proof fn lemma_text_lt_irreflexive(a: Seq<char>)
    ensures
        !text_lt(a, a),
    decreases a.len(),
{
    if a.len() > 0 {
        lemma_text_lt_irreflexive(a.drop_first());
    }
}

proof fn lemma_text_lt_transitive(a: Seq<char>, b: Seq<char>, c: Seq<char>)
    requires
        text_lt(a, b),
        text_lt(b, c),
    ensures
        text_lt(a, c),
    decreases a.len(),
{
    if a.len() > 0 && b.len() > 0 && c.len() > 0 && a[0] == b[0] && b[0] == c[0] {
        lemma_text_lt_transitive(a.drop_first(), b.drop_first(), c.drop_first());
    }
}

proof fn lemma_window_lt_order(
    a: (isize, Seq<char>, Seq<char>),
    b: (isize, Seq<char>, Seq<char>),
    c: (isize, Seq<char>, Seq<char>),
)
    ensures
        !window_lt(a, a),
        window_lt(a, b) && window_lt(b, c) ==> window_lt(a, c),
{
    lemma_text_lt_irreflexive(a.1);
    lemma_text_lt_irreflexive(a.2);
    if window_lt(a, b) && window_lt(b, c) {
        if text_lt(a.2, b.2) && text_lt(b.2, c.2) {
            lemma_text_lt_transitive(a.2, b.2, c.2);
        } else if a.2 == b.2 && b.2 == c.2 {
            lemma_text_lt_transitive(a.1, b.1, c.1);
        }
    }
}

/// Whether no entry of `s` comes before an earlier one.
pub open spec fn is_sorted(s: Seq<(isize, Seq<char>, Seq<char>)>) -> bool {
    forall|i: int, j: int| 0 <= i < j < s.len() ==> !window_lt(#[trigger] s[j], #[trigger] s[i])
}

proof fn lemma_insert_bound(
    s: Seq<(isize, Seq<char>, Seq<char>)>,
    x: (isize, Seq<char>, Seq<char>),
    y: (isize, Seq<char>, Seq<char>),
)
    requires
        forall|j: int| 0 <= j < s.len() ==> !window_lt(#[trigger] s[j], y),
        !window_lt(x, y),
    ensures
        sorted_insert(s, x).len() == s.len() + 1,
        forall|k: int| 0 <= k < sorted_insert(s, x).len() ==> !window_lt(#[trigger] sorted_insert(s, x)[k], y),
    decreases s.len(),
{
    if s.len() > 0 && !window_lt(x, s[0]) {
        let t = s.drop_first();
        assert forall|j: int| 0 <= j < t.len() implies !window_lt(#[trigger] t[j], y) by {
            assert(t[j] == s[j + 1]);
        }
        lemma_insert_bound(t, x, y);
        let r = sorted_insert(s, x);
        assert forall|k: int| 0 <= k < r.len() implies !window_lt(#[trigger] r[k], y) by {
            if k > 0 {
                assert(r[k] == sorted_insert(t, x)[k - 1]);
            }
        }
    }
}

proof fn lemma_insert_sorted(s: Seq<(isize, Seq<char>, Seq<char>)>, x: (isize, Seq<char>, Seq<char>))
    requires
        is_sorted(s),
    ensures
        is_sorted(sorted_insert(s, x)),
        sorted_insert(s, x).len() == s.len() + 1,
    decreases s.len(),
{
    let r = sorted_insert(s, x);
    if s.len() == 0 {
    } else if window_lt(x, s[0]) {
        assert forall|i: int, j: int| 0 <= i < j < r.len() implies !window_lt(#[trigger] r[j], #[trigger] r[i]) by {
            if i == 0 {
                assert(r[j] == s[j - 1]);
                lemma_window_lt_order(s[j - 1], x, s[0]);
                lemma_window_lt_order(s[0], x, s[0]);
            } else {
                assert(r[i] == s[i - 1] && r[j] == s[j - 1]);
            }
        }
    } else {
        let t = s.drop_first();
        assert(is_sorted(t)) by {
            assert forall|i: int, j: int| 0 <= i < j < t.len() implies !window_lt(#[trigger] t[j], #[trigger] t[i]) by {
                assert(t[i] == s[i + 1] && t[j] == s[j + 1]);
            }
        }
        lemma_insert_sorted(t, x);
        assert forall|j: int| 0 <= j < t.len() implies !window_lt(#[trigger] t[j], s[0]) by {
            assert(t[j] == s[j + 1]);
        }
        lemma_insert_bound(t, x, s[0]);
        let u = sorted_insert(t, x);
        assert forall|i: int, j: int| 0 <= i < j < r.len() implies !window_lt(#[trigger] r[j], #[trigger] r[i]) by {
            assert(r[j] == u[j - 1]);
            if i > 0 {
                assert(r[i] == u[i - 1]);
            }
        }
    }
}

/// The window list is in order: no entry comes before an earlier one by
/// process name, then title; and it holds as many entries as there are
/// listed windows.
pub proof fn lemma_window_list_sorted(ws: Seq<ShareableWindow>)
    ensures
        is_sorted(spec_window_list(ws)),
        spec_window_list(ws).len() == listed_entries(ws).len(),
{
    lemma_sort_entries_sorted(listed_entries(ws));
}

proof fn lemma_sort_entries_sorted(s: Seq<(isize, Seq<char>, Seq<char>)>)
    ensures
        is_sorted(sort_entries(s)),
        sort_entries(s).len() == s.len(),
    decreases s.len(),
{
    if s.len() > 0 {
        lemma_sort_entries_sorted(s.drop_last());
        lemma_insert_sorted(sort_entries(s.drop_last()), s.last());
    }
}

} // verus!
