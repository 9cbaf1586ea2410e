//! The approval token that lets the portal picker skip its consent dialog
//! once the user chose "Always allow": where it is stored, how its file
//! contents are read, and how a presented token is checked.
//!
//! Reading and writing the file is done by the application shell.

use vstd::prelude::*;
use crate::text::{chars_of, join_path, path_join, string_from_chars, trim, trim_chars};

verus! {

/// The directory that holds per-user state: `XDG_STATE_HOME` if set,
/// otherwise `$HOME/.local/state`, with `/tmp` standing in for an unset `HOME`.
pub open spec fn spec_state_dir(xdg_state_home: Option<Seq<char>>, home: Option<Seq<char>>) -> Seq<char> {
    match xdg_state_home {
        Some(x) => x,
        None => path_join(
            path_join(
                match home {
                    Some(h) => h,
                    None => "/tmp"@,
                },
                ".local"@,
            ),
            "state"@,
        ),
    }
}

/// The path of the approval token file, given the environment variables
/// `XDG_STATE_HOME` and `HOME` (each `None` when unset).
pub fn token_path(xdg_state_home: Option<&str>, home: Option<&str>) -> (r: String)
    ensures
        r@ == path_join(
            path_join(
                spec_state_dir(
                    match xdg_state_home {
                        Some(x) => Some(x@),
                        None => None,
                    },
                    match home {
                        Some(h) => Some(h@),
                        None => None,
                    },
                ),
                "omnirec"@,
            ),
            "approval-token"@,
        ),
{
    let state_dir = match xdg_state_home {
        Some(x) => x.to_string(),
        None => {
            let base = match home {
                Some(h) => h.to_string(),
                None => "/tmp".to_string(),
            };
            let local = join_path(base.as_str(), ".local");
            join_path(local.as_str(), "state")
        },
    };
    let dir = join_path(state_dir.as_str(), "omnirec");
    join_path(dir.as_str(), "approval-token")
}

/// The path of the picker's IPC socket, given `XDG_RUNTIME_DIR` (`/tmp`
/// when unset).
pub fn socket_path(xdg_runtime_dir: Option<&str>) -> (r: String)
    ensures
        r@ == path_join(
            path_join(
                match xdg_runtime_dir {
                    Some(x) => x@,
                    None => "/tmp"@,
                },
                "omnirec"@,
            ),
            "picker.sock"@,
        ),
{
    let base = match xdg_runtime_dir {
        Some(x) => x.to_string(),
        None => "/tmp".to_string(),
    };
    let dir = join_path(base.as_str(), "omnirec");
    join_path(dir.as_str(), "picker.sock")
}

/// The token held by a token file's contents: the contents trimmed of
/// whitespace, or `None` when nothing is left.
pub fn token_from_contents(contents: &str) -> (r: Option<String>)
    ensures
        match r {
            Some(t) => t@ == trim(contents@) && t@.len() > 0,
            None => trim(contents@).len() == 0,
        },
{
    let chars = chars_of(contents);
    let t = trim_chars(chars.as_slice());
    if t.len() == 0 {
        None
    } else {
        Some(string_from_chars(t.as_slice()))
    }
}

proof fn lemma_xor_or_zero(acc: u32, a: u32, b: u32)
    ensures
        (acc | (a ^ b)) == 0 <==> (acc == 0 && a == b),
{
    assert((acc | (a ^ b)) == 0 <==> (acc == 0 && a == b)) by (bit_vector);
}

/// Validate a token against the stored token: true exactly when a token is
/// stored and it equals the presented one. The comparison looks at every
/// character, whatever their differences, so that its time does not reveal
/// where the tokens differ.
pub fn validate_token(stored: Option<&str>, token: &str) -> (r: bool)
    ensures
        r == (stored matches Some(s) && s@ == token@),
{
    match stored {
        None => false,
        Some(s) => {
            let n = s.unicode_len();
            if n != token.unicode_len() {
                return false;
            }
            let mut acc: u32 = 0;
            let mut i: usize = 0;
            assert(s@.subrange(0, 0) =~= token@.subrange(0, 0));
            while i < n
                invariant
                    n == s@.len() == token@.len(),
                    i <= n,
                    (acc == 0) == (s@.subrange(0, i as int) == token@.subrange(0, i as int)),
                decreases n - i,
            {
                let a = s.get_char(i) as u32;
                let b = token.get_char(i) as u32;
                proof {
                    lemma_xor_or_zero(acc, a, b);
                    assert(s@.subrange(0, i + 1) =~= s@.subrange(0, i as int).push(s@[i as int]));
                    assert(token@.subrange(0, i + 1) =~= token@.subrange(0, i as int).push(
                        token@[i as int],
                    ));
                    if s@.subrange(0, i + 1) == token@.subrange(0, i + 1) {
                        assert(s@.subrange(0, i + 1)[i as int] == token@.subrange(0, i + 1)[i as int]);
                    }
                    if s@.subrange(0, i as int) != token@.subrange(0, i as int) {
                        assert(s@.subrange(0, i + 1).subrange(0, i as int) =~= s@.subrange(0, i as int));
                        assert(token@.subrange(0, i + 1).subrange(0, i as int) =~= token@.subrange(
                            0,
                            i as int,
                        ));
                    }
                }
                acc = acc | (a ^ b);
                i = i + 1;
            }
            assert(s@.subrange(0, n as int) =~= s@);
            assert(token@.subrange(0, n as int) =~= token@);
            acc == 0
        },
    }
}

} // verus!
