//! Transcript text: timestamps, segment lines, the transcript file name, and
//! the removal of repetition loops from transcribed text.

use vstd::prelude::*;
use crate::config::{to_lowercase, unicode_lowercase};
use crate::text::{
    chars_eq, chars_of, decimal2, join_spaces, join_with_spaces, push_char, push_decimal2,
    push_str, split_whitespace, split_ws, string_from_chars, trim, trim_chars, utf8_len,
    utf8_len_at_least, views,
};

verus! {

/// Heading written at the top of a transcript file, with the blank line after it.
pub fn transcript_header() -> (r: &'static str)
    ensures
        r@ == "# Recording Transcript\n\n"@,
{
    "# Recording Transcript\n\n"
}

/// `HH:MM:SS` for a number of seconds; the hours are not limited to two digits.
pub open spec fn spec_hms(total: nat) -> Seq<char> {
    decimal2(total / 3600) + seq![':'] + decimal2((total % 3600) / 60) + seq![':'] + decimal2(
        total % 60,
    )
}

/// Format a timestamp, given in whole seconds, as `HH:MM:SS`.
pub fn format_timestamp(total_seconds: u64) -> (r: String)
    ensures
        r@ == spec_hms(total_seconds as nat),
{
    let hours = total_seconds / 3600;
    let minutes = (total_seconds % 3600) / 60;
    let secs = total_seconds % 60;
    let mut out = String::new();
    push_decimal2(&mut out, hours);
    push_char(&mut out, ':');
    push_decimal2(&mut out, minutes);
    push_char(&mut out, ':');
    push_decimal2(&mut out, secs);
    out
}

/// The transcript line of a segment: `[HH:MM:SS] text`, the text trimmed,
/// followed by a blank line.
pub open spec fn spec_segment_line(total_seconds: nat, text: Seq<char>) -> Seq<char> {
    seq!['['] + spec_hms(total_seconds) + seq![']', ' '] + trim(text) + seq!['\n', '\n']
}

/// The line written for a segment that starts `total_seconds` into the recording.
pub fn segment_line(total_seconds: u64, text: &str) -> (r: String)
    ensures
        r@ == spec_segment_line(total_seconds as nat, text@),
{
    let mut out = String::new();
    push_char(&mut out, '[');
    let ts = format_timestamp(total_seconds);
    push_str(&mut out, ts.as_str());
    push_char(&mut out, ']');
    push_char(&mut out, ' ');
    let chars = chars_of(text);
    let trimmed = trim_chars(chars.as_slice());
    let t = string_from_chars(trimmed.as_slice());
    push_str(&mut out, t.as_str());
    push_char(&mut out, '\n');
    push_char(&mut out, '\n');
    proof {
        assert(out@ =~= spec_segment_line(total_seconds as nat, text@));
    }
    out
}

/// The file name of the transcript of a video whose file stem is `stem`
/// (`"recording"` when the video path has none).
pub open spec fn spec_transcript_file_name(stem: Option<Seq<char>>) -> Seq<char> {
    match stem {
        Some(s) => s + "_transcript.md"@,
        None => "recording_transcript.md"@,
    }
}

/// The transcript file name for a video file stem.
pub fn transcript_file_name(stem: Option<&str>) -> (r: String)
    ensures
        r@ == spec_transcript_file_name(
            match stem {
                Some(s) => Some(s@),
                None => None,
            },
        ),
{
    let mut out = String::new();
    match stem {
        Some(s) => push_str(&mut out, s),
        None => push_str(&mut out, "recording"),
    }
    push_str(&mut out, "_transcript.md");
    proof {
        broadcast use vstd::string::group_string_axioms;
        reveal_strlit("recording");
        reveal_strlit("_transcript.md");
        reveal_strlit("recording_transcript.md");
        assert(out@ =~= spec_transcript_file_name(
            match stem {
                Some(s) => Some(s@),
                None => None,
            },
        ));
    }
    out
}

/// What `Path::file_stem` returns for a path, as a function of its characters.
pub uninterp spec fn path_file_stem(path: Seq<char>) -> Option<Seq<char>>;

/// What `PathBuf::set_file_name` makes of a path and a new file name.
pub uninterp spec fn path_with_file_name(path: Seq<char>, name: Seq<char>) -> Seq<char>;

/// The file stem of a path (std's `Path::file_stem`, as UTF-8).
///
/// Claimed: the result is `path_file_stem` of the path's characters.
#[verifier::external_body]
fn file_stem(path: &str) -> (r: Option<String>)
    ensures
        r matches Some(s) ==> path_file_stem(path@) == Some(s@),
        r is None ==> path_file_stem(path@) is None,
{
    match std::path::Path::new(path).file_stem() {
        Some(stem) => match stem.to_str() {
            Some(text) => Some(text.to_string()),
            None => None,
        },
        None => None,
    }
}

/// The path with its last component replaced by `name` (std's `PathBuf::set_file_name`).
///
/// Claimed: the result is `path_with_file_name` of the two arguments' characters.
#[verifier::external_body]
fn with_file_name(path: &str, name: &str) -> (r: String)
    ensures
        r@ == path_with_file_name(path@, name@),
{
    let mut p = std::path::PathBuf::from(path);
    p.set_file_name(name);
    p.to_string_lossy().into_owned()
}

/// Generate the transcript path from the video path: same directory, file
/// name `<video stem>_transcript.md`.
pub fn transcript_filename_from_video(video_path: &str) -> (r: String)
    ensures
        r@ == path_with_file_name(video_path@, spec_transcript_file_name(path_file_stem(video_path@))),
{
    let stem = file_stem(video_path);
    let name = match &stem {
        Some(s) => transcript_file_name(Some(s.as_str())),
        None => transcript_file_name(None),
    };
    with_file_name(video_path, name.as_str())
}

// ---------------------------------------------------------------------------
// Repetition loops
// ---------------------------------------------------------------------------

/// A phrase repeated this many times in a row is a loop.
pub const MIN_REPETITIONS_FOR_LOOP: usize = 3;

/// Text shorter than this many characters per repetition cannot hold a loop.
pub const MIN_PHRASE_LENGTH: usize = 10;

/// Each word lowercased.
pub open spec fn lowered(words: Seq<Seq<char>>) -> Seq<Seq<char>> {
    words.map_values(|w: Seq<char>| unicode_lowercase(w))
}

/// How many more copies of the block `low[start..start+len]` follow one
/// another from `pos` on.
pub open spec fn reps(low: Seq<Seq<char>>, start: int, len: int, pos: int) -> nat
    decreases low.len() - pos,
{
    if len > 0 && pos >= 0 && pos + len <= low.len() && low.subrange(pos, pos + len) == low.subrange(
        start,
        start + len,
    ) {
        1 + reps(low, start, len, pos + len)
    } else {
        0
    }
}

/// Number of consecutive copies of the block of `len` words at `start`.
pub open spec fn occurrences(low: Seq<Seq<char>>, start: int, len: int) -> nat {
    1 + reps(low, start, len, start + len)
}

/// The first start position, from `start` on, of a block of `len` words that
/// repeats at least `MIN_REPETITIONS_FOR_LOOP` times.
pub open spec fn find_loop(low: Seq<Seq<char>>, len: int, start: int) -> Option<int>
    decreases low.len() - start,
{
    if len <= 0 || start < 0 || start + 3 * len > low.len() {
        None
    } else if occurrences(low, start, len) >= 3 {
        Some(start)
    } else {
        find_loop(low, len, start + 1)
    }
}

/// The words with a loop of `count` copies of the block at `start` cut to a
/// single copy.
pub open spec fn loop_removed(words: Seq<Seq<char>>, start: int, len: int, count: int) -> Seq<
    Seq<char>,
> {
    words.subrange(0, start) + words.subrange(start, start + len) + words.subrange(
        start + len * count,
        words.len() as int,
    )
}

/// The words with the first loop removed, trying block lengths from `len`
/// down to three words.
pub open spec fn first_loop_removed(words: Seq<Seq<char>>, len: int) -> Option<Seq<Seq<char>>>
    decreases len,
{
    if len < 3 {
        None
    } else {
        match find_loop(lowered(words), len, 0) {
            Some(st) => Some(loop_removed(words, st, len, occurrences(lowered(words), st, len) as int)),
            None => first_loop_removed(words, len - 1),
        }
    }
}

/// Transcribed text with a hallucinated repetition loop cut down to one
/// copy: the longest repeated word block (compared case-insensitively) that
/// occurs at least three times in a row, at its first position. Text of
/// fewer than 30 bytes or fewer than nine words is left as it is, and so is
/// text without a loop; otherwise the words are re-joined by single spaces.
pub open spec fn spec_remove_repetition_loops(text: Seq<char>) -> Seq<char> {
    if utf8_len(text) < 30 {
        text
    } else {
        let words = split_ws(text);
        if words.len() < 9 {
            text
        } else {
            match first_loop_removed(words, (words.len() / 3) as int) {
                Some(ws) => join_spaces(ws),
                None => text,
            }
        }
    }
}

/// Whether the block of `len` words at `s` occurs three times in a row
/// there: it is followed directly by two more copies of itself.
pub open spec fn three_in_a_row(low: Seq<Seq<char>>, s: int, len: int) -> bool {
    &&& len >= 1
    &&& 0 <= s
    &&& s + 3 * len <= low.len()
    &&& low.subrange(s + len, s + 2 * len) == low.subrange(s, s + len)
    &&& low.subrange(s + 2 * len, s + 3 * len) == low.subrange(s, s + len)
}

proof fn lemma_three_occurrences(low: Seq<Seq<char>>, s: int, len: int)
    requires
        len >= 1,
        0 <= s,
        occurrences(low, s, len) >= 3,
    ensures
        three_in_a_row(low, s, len),
{
    assert(reps(low, s, len, s + len) >= 2);
    assert(reps(low, s, len, s + 2 * len) >= 1);
}

proof fn lemma_no_loop_found(low: Seq<Seq<char>>, len: int, start: int)
    requires
        forall|s: int| #[trigger] three_in_a_row(low, s, len) ==> false,
    ensures
        find_loop(low, len, start) is None,
    decreases low.len() - start,
{
    if len <= 0 || start < 0 || start + 3 * len > low.len() {
    } else {
        if occurrences(low, start, len) >= 3 {
            lemma_three_occurrences(low, start, len);
            assert(three_in_a_row(low, start, len));
        }
        lemma_no_loop_found(low, len, start + 1);
    }
}

proof fn lemma_no_loop_removed(words: Seq<Seq<char>>, len: int)
    requires
        forall|s: int, l: int| l >= 3 ==> !#[trigger] three_in_a_row(lowered(words), s, l),
    ensures
        first_loop_removed(words, len) is None,
    decreases len,
{
    if len >= 3 {
        assert forall|s: int| #[trigger] three_in_a_row(lowered(words), s, len) implies false by {}
        lemma_no_loop_found(lowered(words), len, 0);
        lemma_no_loop_removed(words, len - 1);
    }
}

/// Only a loop is cut: text in which no block of three or more words
/// occurs three times in a row (compared case-insensitively) comes back
/// unchanged; a phrase said twice is left as it is.
pub proof fn lemma_no_triple_unchanged(text: Seq<char>)
    requires
        forall|s: int, l: int| l >= 3 ==> !#[trigger] three_in_a_row(lowered(split_ws(text)), s, l),
    ensures
        spec_remove_repetition_loops(text) == text,
{
    let words = split_ws(text);
    lemma_no_loop_removed(words, (words.len() / 3) as int);
}

/// A cut loop was a real loop: when the text changes, some block of three
/// or more words occurred three times in a row.
pub proof fn lemma_change_needs_triple(text: Seq<char>)
    requires
        spec_remove_repetition_loops(text) != text,
    ensures
        exists|s: int, l: int| l >= 3 && #[trigger] three_in_a_row(lowered(split_ws(text)), s, l),
{
    if !(exists|s: int, l: int| l >= 3 && #[trigger] three_in_a_row(lowered(split_ws(text)), s, l)) {
        lemma_no_triple_unchanged(text);
    }
}

/// Whether the blocks of `len` words at `a` and `b` are equal.
fn blocks_equal(low: &Vec<Vec<char>>, a: usize, b: usize, len: usize) -> (r: bool)
    requires
        a + len <= low@.len(),
        b + len <= low@.len(),
    ensures
        r == (views(low@).subrange(a as int, a + len) == views(low@).subrange(b as int, b + len)),
{
    let ghost lv = views(low@);
    let n = low.len();
    let mut k: usize = 0;
    while k < len
        invariant
            n == low@.len(),
            a + len <= low@.len(),
            b + len <= low@.len(),
            k <= len,
            lv == views(low@),
            lv.subrange(a as int, a + k) == lv.subrange(b as int, b + k),
        decreases len - k,
    {
        assert(lv[a + k] == low@[a + k as int]@ && lv[b + k] == low@[b + k as int]@);
        if !chars_eq(low[a + k].as_slice(), low[b + k].as_slice()) {
            assert(lv.subrange(a as int, a + len)[k as int] != lv.subrange(b as int, b + len)[k as int]);
            return false;
        }
        assert(lv.subrange(a as int, a + k + 1) =~= lv.subrange(a as int, a + k).push(lv[a + k]));
        assert(lv.subrange(b as int, b + k + 1) =~= lv.subrange(b as int, b + k).push(lv[b + k]));
        k = k + 1;
    }
    true
}

/// Number of consecutive copies of the block of `len` words at `start`.
fn count_occurrences(low: &Vec<Vec<char>>, start: usize, len: usize) -> (r: usize)
    requires
        len > 0,
        start + len <= low@.len(),
    ensures
        r == occurrences(views(low@), start as int, len as int),
        r >= 1,
        start + len * r <= low@.len(),
{
    let ghost lv = views(low@);
    let n = low.len();
    let mut count: usize = 1;
    let mut pos: usize = start + len;
    while len <= n - pos && blocks_equal(low, start, pos, len)
        invariant
            len > 0,
            n == low@.len(),
            lv == views(low@),
            start + len <= pos <= n,
            pos == start + len * count,
            count >= 1,
            occurrences(lv, start as int, len as int) == count + reps(
                lv,
                start as int,
                len as int,
                pos as int,
            ),
        decreases n - pos,
    {
        assert(start + len * (count + 1) == start + len * count + len) by (nonlinear_arith);
        assert(count + 1 <= len * (count + 1)) by (nonlinear_arith)
            requires
                len > 0,
        ;
        count = count + 1;
        pos = pos + len;
    }
    count
}

/// The first start of a loop of blocks of `len` words, with its number of copies.
fn find_loop_start(low: &Vec<Vec<char>>, len: usize) -> (r: Option<(usize, usize)>)
    requires
        len >= 3,
        3 * len <= low@.len(),
    ensures
        match r {
            Some((st, c)) => find_loop(views(low@), len as int, 0) == Some(st as int) && c
                == occurrences(views(low@), st as int, len as int) && st + len * c <= low@.len()
                && st + len <= low@.len(),
            None => find_loop(views(low@), len as int, 0) is None,
        },
{
    let ghost lv = views(low@);
    let last = low.len() - 3 * len;
    let mut start: usize = 0;
    while start <= last
        invariant
            len >= 3,
            last + 3 * len == low@.len() <= usize::MAX,
            lv == views(low@),
            start <= last + 1,
            find_loop(lv, len as int, 0) == find_loop(lv, len as int, start as int),
        decreases last + 1 - start,
    {
        let count = count_occurrences(low, start, len);
        if count >= MIN_REPETITIONS_FOR_LOOP {
            return Some((start, count));
        }
        start = start + 1;
    }
    None
}

/// A copy of a word.
fn copy_word(w: &Vec<char>) -> (r: Vec<char>)
    ensures
        r@ == w@,
{
    let mut out: Vec<char> = Vec::new();
    let mut i: usize = 0;
    while i < w.len()
        invariant
            i <= w@.len(),
            out@ == w@.subrange(0, i as int),
        decreases w@.len() - i,
    {
        out.push(w[i]);
        i = i + 1;
    }
    out
}

/// Appends copies of `words[from..to]` to `out`.
fn append_words(out: &mut Vec<Vec<char>>, words: &Vec<Vec<char>>, from: usize, to: usize)
    requires
        from <= to <= words@.len(),
    ensures
        views(final(out)@) == views(old(out)@) + views(words@).subrange(from as int, to as int),
{
    let mut i = from;
    while i < to
        invariant
            from <= i <= to <= words@.len(),
            views(out@) == views(old(out)@) + views(words@).subrange(from as int, i as int),
        decreases to - i,
    {
        let w = copy_word(&words[i]);
        let ghost prev = out@;
        out.push(w);
        assert(out@ == prev.push(w));
        assert(views(out@) =~= views(prev).push(words@[i as int]@));
        assert(views(words@).subrange(from as int, i + 1) =~= views(words@).subrange(
            from as int,
            i as int,
        ).push(words@[i as int]@));
        i = i + 1;
    }
}

/// Remove repetition loops from transcribed text (see
/// `spec_remove_repetition_loops`).
pub fn remove_repetition_loops(text: &str) -> (r: String)
    ensures
        r@ == spec_remove_repetition_loops(text@),
{
    let chars = chars_of(text);
    if !utf8_len_at_least(chars.as_slice(), MIN_PHRASE_LENGTH * MIN_REPETITIONS_FOR_LOOP) {
        return text.to_string();
    }
    let words = split_whitespace(chars.as_slice());
    let ghost wv = split_ws(text@);
    assert(views(words@) =~= wv);
    if words.len() < MIN_REPETITIONS_FOR_LOOP * 3 {
        return text.to_string();
    }
    let mut low: Vec<Vec<char>> = Vec::new();
    let mut i: usize = 0;
    while i < words.len()
        invariant
            i <= words@.len(),
            views(words@) == wv,
            views(low@) == lowered(wv).subrange(0, i as int),
        decreases words@.len() - i,
    {
        let w = string_from_chars(words[i].as_slice());
        let lw = to_lowercase(w.as_str());
        let lc = chars_of(lw.as_str());
        let ghost prev = low@;
        assert(w@ == wv[i as int]);
        low.push(lc);
        assert(low@ == prev.push(lc));
        assert(views(low@) =~= views(prev).push(unicode_lowercase(wv[i as int])));
        assert(lowered(wv).subrange(0, i + 1) =~= lowered(wv).subrange(0, i as int).push(
            unicode_lowercase(wv[i as int]),
        ));
        i = i + 1;
    }
    assert(views(low@) =~= lowered(wv));
    let n = words.len();
    let mut seq_len: usize = n / MIN_REPETITIONS_FOR_LOOP;
    while seq_len >= 3
        invariant
            n == words@.len() == low@.len(),
            n >= 9,
            seq_len <= n / 3,
            utf8_len(text@) >= 30,
            wv == split_ws(text@),
            views(words@) == wv,
            views(low@) == lowered(wv),
            first_loop_removed(wv, (n / 3) as int) == first_loop_removed(wv, seq_len as int),
        decreases seq_len,
    {
        match find_loop_start(&low, seq_len) {
            Some((start, count)) => {
                let after = start + seq_len * count;
                let mut result: Vec<Vec<char>> = Vec::new();
                append_words(&mut result, &words, 0, start);
                append_words(&mut result, &words, start, start + seq_len);
                append_words(&mut result, &words, after, n);
                assert(views(result@) =~= loop_removed(
                    wv,
                    start as int,
                    seq_len as int,
                    count as int,
                ));
                let out = join_with_spaces(&result);
                assert(first_loop_removed(wv, seq_len as int) == Some(
                    loop_removed(wv, start as int, seq_len as int, count as int),
                ));
                return out;
            },
            None => {
                seq_len = seq_len - 1;
            },
        }
    }
    text.to_string()
}

} // verus!
