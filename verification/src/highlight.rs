//! The highlight border drawn around a capture target, and the textual
//! window addresses of the Hyprland compositor.

use vstd::prelude::*;
use crate::text::push_char;

verus! {

/// Width of the highlight border, in pixels.
pub const BORDER_WIDTH: i32 = 8;

/// How long the highlight stays on screen, in milliseconds.
pub const HIGHLIGHT_DURATION_MS: u64 = 800;

/// Border colour: red, green, blue and alpha bytes.
pub const BORDER_R: u8 = 0x21;
pub const BORDER_G: u8 = 0x96;
pub const BORDER_B: u8 = 0xF3;
pub const BORDER_A: u8 = 0xFF;

/// Whether pixel (`px`, `py`) of a `width` x `height` surface is on its border.
pub open spec fn on_border(px: int, py: int, width: int, height: int) -> bool {
    py < 8 || py >= height - 8 || px < 8 || px >= width - 8
}

/// Byte `i` of the highlight surface: ARGB8888 pixels, stored as blue,
/// green, red, alpha; border pixels opaque blue, the inside transparent.
pub open spec fn border_byte(width: int, height: int, i: int) -> u8 {
    let p = i / 4;
    if on_border(p % width, p / width, width, height) {
        if i % 4 == 0 {
            0xF3u8
        } else if i % 4 == 1 {
            0x96u8
        } else if i % 4 == 2 {
            0x21u8
        } else {
            0xFFu8
        }
    } else {
        0u8
    }
}

/// The pixels of a highlight surface of `width` x `height` (rows of
/// `width * 4` bytes).
pub fn border_pixels(width: i32, height: i32) -> (pixels: Vec<u8>)
    requires
        width >= 0,
        height >= 0,
        (width as int) * (height as int) * 4 <= usize::MAX,
    ensures
        pixels@.len() == (width as int) * (height as int) * 4,
        forall|i: int| 0 <= i < pixels@.len() ==> #[trigger] pixels@[i] == border_byte(
            width as int,
            height as int,
            i,
        ),
{
    let mut pixels: Vec<u8> = Vec::new();
    let mut py: i32 = 0;
    while py < height
        invariant
            0 <= py <= height,
            width >= 0,
            (width as int) * (height as int) * 4 <= usize::MAX,
            pixels@.len() == (py as int) * (width as int) * 4,
            forall|i: int| 0 <= i < pixels@.len() ==> #[trigger] pixels@[i] == border_byte(
                width as int,
                height as int,
                i,
            ),
        decreases height - py,
    {
        let mut px: i32 = 0;
        while px < width
            invariant
                0 <= py < height,
                0 <= px <= width,
                (width as int) * (height as int) * 4 <= usize::MAX,
                pixels@.len() == (py as int) * (width as int) * 4 + (px as int) * 4,
                forall|i: int| 0 <= i < pixels@.len() ==> #[trigger] pixels@[i] == border_byte(
                    width as int,
                    height as int,
                    i,
                ),
            decreases width - px,
        {
            proof {
                assert((py as int) * (width as int) * 4 + (px as int) * 4 + 4 <= (width as int) * (
                height as int) * 4) by (nonlinear_arith)
                    requires
                        0 <= py < height,
                        0 <= px < width,
                ;
            }
            let is_border = py < BORDER_WIDTH || py >= height - BORDER_WIDTH || px < BORDER_WIDTH
                || px >= width - BORDER_WIDTH;
            let base = pixels.len();
            if is_border {
                pixels.push(BORDER_B);
                pixels.push(BORDER_G);
                pixels.push(BORDER_R);
                pixels.push(BORDER_A);
            } else {
                pixels.push(0u8);
                pixels.push(0u8);
                pixels.push(0u8);
                pixels.push(0u8);
            }
            proof {
                assert forall|i: int| base <= i < base + 4 implies #[trigger] pixels@[i]
                    == border_byte(width as int, height as int, i) by {
                    let q = (py as int) * (width as int) + px as int;
                    assert(base == q * 4) by (nonlinear_arith)
                        requires
                            base == (py as int) * (width as int) * 4 + (px as int) * 4,
                            q == (py as int) * (width as int) + px as int,
                    ;
                    assert(i / 4 == q);
                    assert(i % 4 == i - base);
                    vstd::arithmetic::div_mod::lemma_fundamental_div_mod_converse(
                        q,
                        width as int,
                        py as int,
                        px as int,
                    );
                }
            }
            px = px + 1;
        }
        assert((py as int) * (width as int) * 4 + (width as int) * 4 == (py + 1) * (width as int) * 4)
            by (nonlinear_arith);
        py = py + 1;
    }
    assert((height as int) * (width as int) * 4 == (width as int) * (height as int) * 4)
        by (nonlinear_arith);
    pixels
}

/// `s` with every leading `0x` removed (`str::trim_start_matches("0x")`).
pub open spec fn strip_hex_prefix(s: Seq<char>) -> Seq<char>
    decreases s.len(),
{
    if s.len() >= 2 && s[0] == '0' && s[1] == 'x' {
        strip_hex_prefix(s.subrange(2, s.len() as int))
    } else {
        s
    }
}

/// The value of a hexadecimal digit, if `c` is one.
pub open spec fn hex_digit(c: char) -> Option<nat> {
    if '0' <= c && c <= '9' {
        Some(((c as u32) - 48) as nat)
    } else if 'a' <= c && c <= 'f' {
        Some(((c as u32) - 87) as nat)
    } else if 'A' <= c && c <= 'F' {
        Some(((c as u32) - 55) as nat)
    } else {
        None
    }
}

/// The value of a sequence of hexadecimal digits, if every character is one.
pub open spec fn hex_value(s: Seq<char>) -> Option<nat>
    decreases s.len(),
{
    if s.len() == 0 {
        Some(0)
    } else {
        match (hex_value(s.drop_last()), hex_digit(s.last())) {
            (Some(v), Some(d)) => Some(v * 16 + d),
            _ => None,
        }
    }
}

/// What `isize::from_str_radix(s, 16)` gives: an optional sign, then one or
/// more hexadecimal digits whose signed value fits in an `isize`.
pub open spec fn spec_parse_hex_isize(s: Seq<char>) -> Option<int> {
    let neg = s.len() > 0 && s[0] == '-';
    let digits = if s.len() > 0 && (s[0] == '-' || s[0] == '+') {
        s.drop_first()
    } else {
        s
    };
    if digits.len() == 0 {
        None
    } else {
        match hex_value(digits) {
            Some(v) => {
                let value = if neg {
                    -v
                } else {
                    v as int
                };
                if isize::MIN <= value && value <= isize::MAX {
                    Some(value)
                } else {
                    None
                }
            },
            None => None,
        }
    }
}

/// The window handle of a Hyprland window address such as `0x5638d0a12345`:
/// its hexadecimal value with the `0x` prefixes removed, or 0 when that does
/// not parse.
pub open spec fn spec_window_handle(address: Seq<char>) -> int {
    match spec_parse_hex_isize(strip_hex_prefix(address)) {
        Some(v) => v,
        None => 0,
    }
}

proof fn lemma_hex_value_step(s: Seq<char>, i: int)
    requires
        0 <= i < s.len(),
    ensures
        hex_value(s.subrange(0, i + 1)) == match (hex_value(s.subrange(0, i)), hex_digit(s[i])) {
            (Some(v), Some(d)) => Some(v * 16 + d),
            _ => None::<nat>,
        },
{
    assert(s.subrange(0, i + 1).drop_last() =~= s.subrange(0, i));
}

proof fn lemma_hex_value_none_extends(s: Seq<char>, k: int)
    requires
        0 <= k <= s.len(),
        hex_value(s.subrange(0, k)) is None,
    ensures
        hex_value(s) is None,
    decreases s.len() - k,
{
    if k < s.len() {
        lemma_hex_value_step(s, k);
        lemma_hex_value_none_extends(s, k + 1);
    } else {
        assert(s.subrange(0, k) =~= s);
    }
}

proof fn lemma_hex_value_mono(s: Seq<char>, k: int)
    requires
        0 <= k <= s.len(),
        hex_value(s) is Some,
    ensures
        hex_value(s.subrange(0, k)) is Some,
        hex_value(s.subrange(0, k)).unwrap() <= hex_value(s).unwrap(),
    decreases s.len() - k,
{
    if k < s.len() {
        lemma_hex_value_step(s, k);
        if hex_value(s.subrange(0, k)) is None {
            lemma_hex_value_none_extends(s, k);
        }
        lemma_hex_value_mono(s, k + 1);
    } else {
        assert(s.subrange(0, k) =~= s);
    }
}

/// Parse a Hyprland window address into a window handle (see
/// `spec_window_handle`).
pub fn parse_window_address(address: &str) -> (handle: isize)
    ensures
        handle as int == spec_window_handle(address@),
{
    let chars = crate::text::chars_of(address);
    let n = chars.len();
    let mut start: usize = 0;
    assert(chars@.subrange(0, n as int) =~= chars@);
    while n - start >= 2 && chars[start] == '0' && chars[start + 1] == 'x'
        invariant
            start <= n == chars@.len(),
            chars@ == address@,
            strip_hex_prefix(address@) == strip_hex_prefix(chars@.subrange(start as int, n as int)),
        decreases n - start,
    {
        assert(chars@.subrange(start as int, n as int).subrange(2, n - start) =~= chars@.subrange(
            start + 2,
            n as int,
        ));
        start = start + 2;
    }
    let ghost s = chars@.subrange(start as int, n as int);
    assert(strip_hex_prefix(s) == s);
    assert(strip_hex_prefix(address@) == s);
    let neg = start < n && chars[start] == '-';
    assert(neg == (s.len() > 0 && s[0] == '-'));
    let mut i = start;
    if start < n && (chars[start] == '-' || chars[start] == '+') {
        i = start + 1;
    }
    let ghost digits = chars@.subrange(i as int, n as int);
    assert(digits =~= if s.len() > 0 && (s[0] == '-' || s[0] == '+') {
        s.drop_first()
    } else {
        s
    });
    if i >= n {
        return 0;
    }
    let limit: u128 = if neg {
        (isize::MAX as u128) + 1
    } else {
        isize::MAX as u128
    };
    let mut value: u128 = 0;
    let mut j = i;
    while j < n
        invariant
            i <= j <= n == chars@.len(),
            digits == chars@.subrange(i as int, n as int),
            digits == (if s.len() > 0 && (s[0] == '-' || s[0] == '+') {
                s.drop_first()
            } else {
                s
            }),
            digits.len() > 0,
            neg == (s.len() > 0 && s[0] == '-'),
            limit == if neg {
                isize::MAX + 1
            } else {
                isize::MAX as int
            },
            strip_hex_prefix(address@) == s,
            hex_value(digits.subrange(0, j - i)) == Some(value as nat),
            value <= limit,
        decreases n - j,
    {
        let c = chars[j];
        let d: u128 = if '0' <= c && c <= '9' {
            (c as u32 - 48) as u128
        } else if 'a' <= c && c <= 'f' {
            (c as u32 - 87) as u128
        } else if 'A' <= c && c <= 'F' {
            (c as u32 - 55) as u128
        } else {
            proof {
                lemma_hex_value_step(digits, j - i);
                lemma_hex_value_none_extends(digits, j - i + 1);
                assert(spec_parse_hex_isize(s) is None);
            }
            return 0;
        };
        proof {
            lemma_hex_value_step(digits, j - i);
        }
        let next = value * 16 + d;
        if next > limit {
            proof {
                if hex_value(digits) is Some {
                    lemma_hex_value_mono(digits, j - i + 1);
                }
                assert(spec_parse_hex_isize(s) is None);
            }
            return 0;
        }
        value = next;
        j = j + 1;
    }
    assert(digits.subrange(0, n - i) =~= digits);
    if neg {
        if value == (isize::MAX as u128) + 1 {
            isize::MIN
        } else {
            0 - (value as isize)
        }
    } else {
        value as isize
    }
}

/// The lowercase hexadecimal numeral of `n`.
pub open spec fn hex(n: nat) -> Seq<char>
    decreases n,
{
    if n < 16 {
        seq![hex_char(n)]
    } else {
        hex(n / 16).push(hex_char(n % 16))
    }
}

/// The lowercase hexadecimal digit for `d < 16`.
pub open spec fn hex_char(d: nat) -> char {
    if d < 10 {
        (48 + d) as char
    } else {
        (87 + d) as char
    }
}

fn push_hex(out: &mut String, n: usize)
    ensures
        final(out)@ == old(out)@ + hex(n as nat),
    decreases n,
{
    let d = n % 16;
    let c: char = if d < 10 {
        ((48 + d) as u8) as char
    } else {
        ((87 + d) as u8) as char
    };
    assert(c == hex_char(d as nat));
    if n < 16 {
        push_char(out, c);
        assert(old(out)@.push(c) =~= old(out)@ + seq![c]);
    } else {
        push_hex(out, n / 16);
        push_char(out, c);
        assert(old(out)@ + hex((n / 16) as nat).push(c) =~= (old(out)@ + hex((n / 16) as nat)).push(
            c,
        ));
    }
}

/// The Hyprland address of a window handle: `0x` and the lowercase
/// hexadecimal of the handle's bits.
pub fn format_window_address(handle: isize) -> (r: String)
    ensures
        r@ == seq!['0', 'x'] + hex((handle as usize) as nat),
{
    let mut out = String::new();
    push_char(&mut out, '0');
    push_char(&mut out, 'x');
    push_hex(&mut out, handle as usize);
    out
}

} // verus!
