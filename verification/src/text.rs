//! Character-level string helpers shared by the other modules.
//!
//! Strings are modelled by their view, a `Seq<char>`.

use vstd::prelude::*;

verus! {

/// Appends one character to a `String` (std's `String::push`).
///
/// Claimed: the new contents are the old contents followed by `c`.
#[verifier::external_body]
pub(crate) fn push_char(s: &mut String, c: char)
    ensures
        final(s)@ == old(s)@.push(c),
{
    s.push(c);
}

/// The characters of `s`, in order.
pub fn chars_of(s: &str) -> (v: Vec<char>)
    ensures
        v@ == s@,
{
    let n = s.unicode_len();
    let mut v: Vec<char> = Vec::new();
    let mut i: usize = 0;
    while i < n
        invariant
            n == s@.len(),
            i <= n,
            v@ == s@.subrange(0, i as int),
        decreases n - i,
    {
        let c = s.get_char(i);
        v.push(c);
        i = i + 1;
    }
    assert(v@ == s@);
    v
}

/// A `String` holding exactly the characters of `v`.
pub fn string_from_chars(v: &[char]) -> (s: String)
    ensures
        s@ == v@,
{
    let mut s = String::new();
    let mut i: usize = 0;
    while i < v.len()
        invariant
            i <= v@.len(),
            s@ == v@.subrange(0, i as int),
        decreases v@.len() - i,
    {
        push_char(&mut s, v[i]);
        i = i + 1;
    }
    assert(s@ == v@);
    s
}

/// Whether two strings hold the same characters.
pub fn str_eq(a: &str, b: &str) -> (r: bool)
    ensures
        r == (a@ == b@),
{
    let n = a.unicode_len();
    let m = b.unicode_len();
    if n != m {
        return false;
    }
    let mut i: usize = 0;
    while i < n
        invariant
            n == a@.len(),
            m == b@.len(),
            n == m,
            i <= n,
            forall|j: int| 0 <= j < i ==> a@[j] == b@[j],
        decreases n - i,
    {
        if a.get_char(i) != b.get_char(i) {
            return false;
        }
        i = i + 1;
    }
    assert(a@ =~= b@);
    true
}

/// Whether two character sequences are equal.
pub fn chars_eq(a: &[char], b: &[char]) -> (r: bool)
    ensures
        r == (a@ == b@),
{
    if a.len() != b.len() {
        return false;
    }
    let mut i: usize = 0;
    while i < a.len()
        invariant
            a@.len() == b@.len(),
            i <= a@.len(),
            forall|j: int| 0 <= j < i ==> a@[j] == b@[j],
        decreases a@.len() - i,
    {
        if a[i] != b[i] {
            return false;
        }
        i = i + 1;
    }
    assert(a@ =~= b@);
    true
}

/// The decimal digit character for `d < 10`.
pub open spec fn digit_char(d: nat) -> char {
    if d == 0 { '0' }
    else if d == 1 { '1' }
    else if d == 2 { '2' }
    else if d == 3 { '3' }
    else if d == 4 { '4' }
    else if d == 5 { '5' }
    else if d == 6 { '6' }
    else if d == 7 { '7' }
    else if d == 8 { '8' }
    else { '9' }
}

/// The decimal numeral of `n`, without leading zeros ("0" for zero).
pub open spec fn decimal(n: nat) -> Seq<char>
    decreases n,
{
    if n < 10 {
        seq![digit_char(n)]
    } else {
        decimal(n / 10).push(digit_char(n % 10))
    }
}

/// The decimal numeral of `n`, left-padded with zeros to at least two characters.
pub open spec fn decimal2(n: nat) -> Seq<char> {
    if n < 10 { seq!['0', digit_char(n)] } else { decimal(n) }
}

fn digit(d: u64) -> (c: char)
    requires
        d < 10,
    ensures
        c == digit_char(d as nat),
{
    if d == 0 { '0' }
    else if d == 1 { '1' }
    else if d == 2 { '2' }
    else if d == 3 { '3' }
    else if d == 4 { '4' }
    else if d == 5 { '5' }
    else if d == 6 { '6' }
    else if d == 7 { '7' }
    else if d == 8 { '8' }
    else { '9' }
}

/// Appends the decimal numeral of `n` to `out`.
pub fn push_decimal(out: &mut String, n: u64)
    ensures
        final(out)@ == old(out)@ + decimal(n as nat),
    decreases n,
{
    if n < 10 {
        push_char(out, digit(n));
        assert(old(out)@.push(digit_char(n as nat)) =~= old(out)@ + seq![digit_char(n as nat)]);
    } else {
        push_decimal(out, n / 10);
        push_char(out, digit(n % 10));
        assert(old(out)@ + decimal((n / 10) as nat).push(digit_char((n % 10) as nat)) =~= (old(out)@
            + decimal((n / 10) as nat)).push(digit_char((n % 10) as nat)));
    }
}

/// Appends the decimal numeral of `n`, padded to two characters, to `out`.
pub fn push_decimal2(out: &mut String, n: u64)
    ensures
        final(out)@ == old(out)@ + decimal2(n as nat),
{
    if n < 10 {
        push_char(out, '0');
        push_char(out, digit(n));
        assert(old(out)@.push('0').push(digit_char(n as nat)) =~= old(out)@ + seq![
            '0',
            digit_char(n as nat),
        ]);
    } else {
        push_decimal(out, n);
    }
}

/// Appends the characters of `s` to `out`.
pub fn push_str(out: &mut String, s: &str)
    ensures
        final(out)@ == old(out)@ + s@,
{
    out.append(s);
}

/// Whether `c` has the Unicode `White_Space` property (`char::is_whitespace`).
pub open spec fn is_ws(c: char) -> bool {
    let u = c as u32;
    (0x09 <= u && u <= 0x0d) || u == 0x20 || u == 0x85 || u == 0xa0 || u == 0x1680 || (0x2000
        <= u && u <= 0x200a) || u == 0x2028 || u == 0x2029 || u == 0x202f || u == 0x205f || u
        == 0x3000
}

/// Whether `c` is whitespace (see `is_ws`).
pub fn is_whitespace(c: char) -> (r: bool)
    ensures
        r == is_ws(c),
{
    let u = c as u32;
    (0x09 <= u && u <= 0x0d) || u == 0x20 || u == 0x85 || u == 0xa0 || u == 0x1680 || (0x2000
        <= u && u <= 0x200a) || u == 0x2028 || u == 0x2029 || u == 0x202f || u == 0x205f || u
        == 0x3000
}

/// Number of whitespace characters at the start of `s`.
pub open spec fn leading_ws(s: Seq<char>) -> nat
    decreases s.len(),
{
    if s.len() == 0 {
        0
    } else if is_ws(s[0]) {
        1 + leading_ws(s.drop_first())
    } else {
        0
    }
}

/// Number of whitespace characters at the end of `s`.
pub open spec fn trailing_ws(s: Seq<char>) -> nat
    decreases s.len(),
{
    if s.len() == 0 {
        0
    } else if is_ws(s.last()) {
        1 + trailing_ws(s.drop_last())
    } else {
        0
    }
}

/// `s` without leading and trailing whitespace (`str::trim`).
pub open spec fn trim(s: Seq<char>) -> Seq<char> {
    if leading_ws(s) >= s.len() {
        Seq::empty()
    } else {
        s.subrange(leading_ws(s) as int, s.len() - trailing_ws(s))
    }
}

proof fn lemma_leading_ws(s: Seq<char>, i: nat)
    requires
        i <= s.len(),
        forall|k: int| 0 <= k < i ==> is_ws(#[trigger] s[k]),
        i < s.len() ==> !is_ws(s[i as int]),
    ensures
        leading_ws(s) == i,
    decreases i,
{
    if i > 0 {
        lemma_leading_ws(s.drop_first(), (i - 1) as nat);
    }
}

proof fn lemma_trailing_ws(s: Seq<char>, i: nat)
    requires
        i <= s.len(),
        forall|k: int| s.len() - i <= k < s.len() ==> is_ws(#[trigger] s[k]),
        i < s.len() ==> !is_ws(s[s.len() - i - 1]),
    ensures
        trailing_ws(s) == i,
    decreases i,
{
    if i > 0 {
        lemma_trailing_ws(s.drop_last(), (i - 1) as nat);
    }
}

/// The characters of `s` without leading and trailing whitespace.
pub fn trim_chars(s: &[char]) -> (r: Vec<char>)
    ensures
        r@ == trim(s@),
{
    let n = s.len();
    let mut a: usize = 0;
    while a < n && is_whitespace(s[a])
        invariant
            a <= n == s@.len(),
            forall|k: int| 0 <= k < a ==> is_ws(#[trigger] s@[k]),
        decreases n - a,
    {
        a = a + 1;
    }
    proof {
        lemma_leading_ws(s@, a as nat);
    }
    let mut out: Vec<char> = Vec::new();
    if a == n {
        return out;
    }
    let mut b: usize = n;
    while b > a && is_whitespace(s[b - 1])
        invariant
            a < n == s@.len(),
            a <= b <= n,
            !is_ws(s@[a as int]),
            forall|k: int| b <= k < n ==> is_ws(#[trigger] s@[k]),
        decreases b,
    {
        b = b - 1;
    }
    proof {
        lemma_trailing_ws(s@, (n - b) as nat);
    }
    let mut i = a;
    while i < b
        invariant
            a <= i <= b <= n == s@.len(),
            out@ == s@.subrange(a as int, i as int),
        decreases b - i,
    {
        out.push(s[i]);
        i = i + 1;
    }
    out
}

/// The whitespace-separated words of `s`, in order (`str::split_whitespace`).
pub open spec fn split_ws(s: Seq<char>) -> Seq<Seq<char>>
    decreases s.len(),
{
    if s.len() == 0 {
        Seq::empty()
    } else {
        let prev = split_ws(s.drop_last());
        let c = s.last();
        if is_ws(c) {
            prev
        } else if s.len() > 1 && !is_ws(s[s.len() - 2]) && prev.len() > 0 {
            prev.update(prev.len() - 1, prev.last().push(c))
        } else {
            prev.push(seq![c])
        }
    }
}

proof fn lemma_split_ws_nonempty(s: Seq<char>)
    requires
        s.len() > 0,
        !is_ws(s.last()),
    ensures
        split_ws(s).len() > 0,
    decreases s.len(),
{
}

/// The whitespace-separated words of `s`.
pub fn split_whitespace(s: &[char]) -> (words: Vec<Vec<char>>)
    ensures
        words@.len() == split_ws(s@).len(),
        forall|i: int| 0 <= i < words@.len() ==> #[trigger] words@[i]@ == split_ws(s@)[i],
{
    let mut words: Vec<Vec<char>> = Vec::new();
    let mut cur: Vec<char> = Vec::new();
    let mut i: usize = 0;
    while i < s.len()
        invariant
            i <= s@.len(),
            cur@.len() > 0 <==> (i > 0 && !is_ws(s@[i - 1])),
            ({
                let sp = split_ws(s@.subrange(0, i as int));
                &&& cur@.len() > 0 ==> sp.len() == words@.len() + 1 && sp.last() == cur@
                &&& cur@.len() == 0 ==> sp.len() == words@.len()
                &&& forall|k: int| 0 <= k < words@.len() ==> #[trigger] words@[k]@ == sp[k]
            }),
        decreases s@.len() - i,
    {
        let c = s[i];
        let ghost pre = s@.subrange(0, i as int);
        let ghost next = s@.subrange(0, i + 1);
        assert(next.drop_last() =~= pre);
        assert(next.last() == c);
        if is_whitespace(c) {
            if cur.len() > 0 {
                let w = cur;
                words.push(w);
                cur = Vec::new();
            }
        } else {
            if i > 0 {
                assert(next[next.len() - 2] == s@[i - 1]);
            }
            cur.push(c);
        }
        i = i + 1;
    }
    if cur.len() > 0 {
        words.push(cur);
    }
    assert(s@.subrange(0, s@.len() as int) =~= s@);
    words
}

/// The words of `ws` joined by single spaces (`[&str]::join(" ")`).
pub open spec fn join_spaces(ws: Seq<Seq<char>>) -> Seq<char>
    decreases ws.len(),
{
    if ws.len() == 0 {
        Seq::empty()
    } else if ws.len() == 1 {
        ws[0]
    } else {
        join_spaces(ws.drop_last()) + seq![' '] + ws.last()
    }
}

/// The character sequences of a list of words.
pub open spec fn views(v: Seq<Vec<char>>) -> Seq<Seq<char>> {
    v.map_values(|w: Vec<char>| w@)
}

/// The words of `ws` joined by single spaces.
pub fn join_with_spaces(ws: &Vec<Vec<char>>) -> (r: String)
    ensures
        r@ == join_spaces(views(ws@)),
{
    let ghost vs = views(ws@);
    let mut out = String::new();
    let mut i: usize = 0;
    while i < ws.len()
        invariant
            i <= ws@.len(),
            vs == views(ws@),
            out@ == join_spaces(vs.subrange(0, i as int)),
        decreases ws@.len() - i,
    {
        let ghost pre = vs.subrange(0, i as int);
        let ghost next = vs.subrange(0, i + 1);
        assert(next.drop_last() =~= pre);
        if i > 0 {
            push_char(&mut out, ' ');
        }
        let w = &ws[i];
        let mut j: usize = 0;
        let ghost base = out@;
        while j < w.len()
            invariant
                j <= w@.len(),
                out@ == base + w@.subrange(0, j as int),
            decreases w@.len() - j,
        {
            push_char(&mut out, w[j]);
            assert(w@.subrange(0, j + 1) =~= w@.subrange(0, j as int).push(w@[j as int]));
            j = j + 1;
        }
        assert(w@.subrange(0, w@.len() as int) =~= w@);
        if i == 0 {
            assert(next.len() == 1 && next[0] == w@);
            assert(out@ =~= join_spaces(next));
        } else {
            assert(out@ =~= join_spaces(next));
        }
        i = i + 1;
    }
    assert(vs.subrange(0, ws@.len() as int) =~= vs);
    out
}

/// Number of bytes in the UTF-8 encoding of `c`.
pub open spec fn utf8_width(c: char) -> nat {
    let u = c as u32;
    if u < 0x80 {
        1
    } else if u < 0x800 {
        2
    } else if u < 0x10000 {
        3
    } else {
        4
    }
}

/// Number of bytes in the UTF-8 encoding of `s` (`str::len`).
pub open spec fn utf8_len(s: Seq<char>) -> nat
    decreases s.len(),
{
    if s.len() == 0 {
        0
    } else {
        utf8_len(s.drop_last()) + utf8_width(s.last())
    }
}

proof fn lemma_utf8_len_mono(s: Seq<char>, i: int, j: int)
    requires
        0 <= i <= j <= s.len(),
    ensures
        utf8_len(s.subrange(0, i)) <= utf8_len(s.subrange(0, j)),
    decreases j - i,
{
    if i < j {
        lemma_utf8_len_mono(s, i, j - 1);
        assert(s.subrange(0, j).drop_last() =~= s.subrange(0, j - 1));
    }
}

/// Whether the UTF-8 encoding of `s` has at least `n` bytes.
pub fn utf8_len_at_least(s: &[char], n: usize) -> (r: bool)
    requires
        n < usize::MAX - 4,
    ensures
        r == (utf8_len(s@) >= n),
{
    if n == 0 {
        return true;
    }
    let mut acc: usize = 0;
    let mut i: usize = 0;
    while i < s.len()
        invariant
            i <= s@.len(),
            n < usize::MAX - 4,
            acc == utf8_len(s@.subrange(0, i as int)),
            acc < n,
        decreases s@.len() - i,
    {
        let u = s[i] as u32;
        let w: usize = if u < 0x80 {
            1
        } else if u < 0x800 {
            2
        } else if u < 0x10000 {
            3
        } else {
            4
        };
        assert(s@.subrange(0, i + 1).drop_last() =~= s@.subrange(0, i as int));
        acc = acc + w;
        i = i + 1;
        if acc >= n {
            proof {
                lemma_utf8_len_mono(s@, i as int, s@.len() as int);
                assert(s@.subrange(0, s@.len() as int) =~= s@);
            }
            return true;
        }
    }
    assert(s@.subrange(0, s@.len() as int) =~= s@);
    false
}

/// `base` joined with the relative or absolute path `part`, as Unix
/// `PathBuf::join` does: an absolute `part` replaces `base`; otherwise a `/`
/// separates them unless `base` is empty or already ends in one.
pub open spec fn path_join(base: Seq<char>, part: Seq<char>) -> Seq<char> {
    if part.len() > 0 && part[0] == '/' {
        part
    } else if base.len() > 0 && base.last() != '/' {
        base + seq!['/'] + part
    } else {
        base + part
    }
}

/// Joins two path strings (see `path_join`).
pub fn join_path(base: &str, part: &str) -> (r: String)
    ensures
        r@ == path_join(base@, part@),
{
    let mut out = String::new();
    let pn = part.unicode_len();
    if pn > 0 && part.get_char(0) == '/' {
        push_str(&mut out, part);
        return out;
    }
    push_str(&mut out, base);
    let bn = base.unicode_len();
    if bn > 0 && base.get_char(bn - 1) != '/' {
        push_char(&mut out, '/');
    }
    push_str(&mut out, part);
    out
}

/// Whether `t` occurs in `s`.
pub open spec fn contains(s: Seq<char>, t: Seq<char>) -> bool {
    exists|i: int| 0 <= i && i + t.len() <= s.len() && #[trigger] s.subrange(i, i + t.len()) == t
}

/// Whether `t` occurs in `s`.
pub fn str_contains(s: &str, t: &str) -> (r: bool)
    ensures
        r == contains(s@, t@),
{
    let n = s.unicode_len();
    let m = t.unicode_len();
    if m > n {
        proof {
            assert forall|i: int| 0 <= i && i + t@.len() <= s@.len() implies #[trigger] s@.subrange(
                i,
                i + t@.len(),
            ) != t@ by {}
        }
        return false;
    }
    let mut i: usize = 0;
    while i <= n - m
        invariant
            n == s@.len(),
            m == t@.len(),
            m <= n,
            i <= n - m + 1,
            forall|k: int| 0 <= k < i ==> #[trigger] s@.subrange(k, k + m) != t@,
        decreases n - m + 1 - i,
    {
        let mut j: usize = 0;
        while j < m && s.get_char(i + j) == t.get_char(j)
            invariant
                n == s@.len(),
                m == t@.len(),
                i + m <= n,
                j <= m,
                s@.subrange(i as int, i + j) == t@.subrange(0, j as int),
            decreases m - j,
        {
            assert(s@.subrange(i as int, i + j + 1) =~= s@.subrange(i as int, i + j).push(
                s@[i + j],
            ));
            assert(t@.subrange(0, j + 1) =~= t@.subrange(0, j as int).push(t@[j as int]));
            j = j + 1;
        }
        if j == m {
            assert(t@.subrange(0, m as int) =~= t@);
            return true;
        }
        assert(s@.subrange(i as int, i + m)[j as int] != t@[j as int]);
        i = i + 1;
    }
    false
}

} // verus!
