//! Terminal geometry: the vertical-layout test, the preview window and the
//! small-screen rule, in integer arithmetic.

use vstd::prelude::*;
use vstd::string::StringExecFns;
use crate::text::{decimal, parse_i64, parsed_i64, push_decimal, trim, trimmed};

verus! {

/// Integer division rounding toward zero, as Rust's `/` on signed integers.
pub open spec fn trunc_div(a: int, b: int) -> int {
    let q = (if a >= 0 {
        a
    } else {
        -a
    }) / (if b >= 0 {
        b
    } else {
        -b
    });
    if (a >= 0) == (b >= 0) {
        q
    } else {
        -q
    }
}

/// `a / b` on `i64`.
fn quotient(a: i64, b: i64) -> (r: i64)
    requires
        b != 0,
        !(a == i64::MIN && b == -1),
    ensures
        r == trunc_div(a as int, b as int),
{
    let x: u64 = if a >= 0 {
        a as u64
    } else {
        (-(a as i128)) as u64
    };
    let y: u64 = if b >= 0 {
        b as u64
    } else {
        (-(b as i128)) as u64
    };
    let q: u64 = x / y;
    assert(q <= x / 2 || y == 1) by (nonlinear_arith)
        requires
            y >= 1,
            q == x / y,
    ;
    if (a >= 0) == (b >= 0) {
        q as i64
    } else {
        -(q as i128) as i64
    }
}

/// `v.clamp(lo, hi)`.
pub open spec fn clamped(v: int, lo: int, hi: int) -> int {
    if v < lo {
        lo
    } else if v > hi {
        hi
    } else {
        v
    }
}

/// A terminal `w` columns wide and `h` lines high is laid out vertically
/// when `w / h < 2.0`, that is `w * 10 < h * 20`.
pub open spec fn vertical(w: int, h: int) -> bool {
    w * 10 < h * 20
}

/// The products that `is_vertical` computes fit in an `i64`.
pub open spec fn ratio_in_range(w: int, h: int) -> bool {
    &&& i64::MIN <= w * 10 <= i64::MAX
    &&& i64::MIN <= h * 20 <= i64::MAX
}

pub fn is_vertical(w: i64, h: i64) -> (b: bool)
    requires
        ratio_in_range(w as int, h as int),
    ensures
        b == vertical(w as int, h as int),
{
    w * 10 < h * 20
}

/// For a positive height the layout is vertical exactly when the width is
/// below twice the height; a ratio of exactly 2.0 is not vertical.
pub proof fn law_vertical_ratio(w: int, h: int)
    requires
        h > 0,
    ensures
        vertical(w, h) <==> w < 2 * h,
        !vertical(2 * h, h),
{
}

/// A vertical layout puts the preview below the list on small heights at
/// 60 lines, a horizontal one at 30.
pub open spec fn small(w: int, h: int) -> bool {
    if vertical(w, h) {
        h <= 60
    } else {
        h <= 30
    }
}

pub fn small_screen(w: i64, h: i64) -> (b: bool)
    requires
        ratio_in_range(w as int, h as int),
    ensures
        b == small(w as int, h as int),
{
    if is_vertical(w, h) {
        h <= 60
    } else {
        h <= 30
    }
}

/// The share of the screen, in percent, that the preview takes:
/// `max(50, min(80, 100 - (4000 + 5h) / h))` when vertical,
/// `max(50, min(80, 100 - (7000 + 11w) / w))` otherwise.
pub open spec fn preview_percent(w: int, h: int) -> int {
    if vertical(w, h) {
        clamped(100 - trunc_div(4000 + 5 * h, h), 50, 80)
    } else {
        clamped(100 - trunc_div(7000 + 11 * w, w), 50, 80)
    }
}

/// The arithmetic of `preview_window` is defined and fits in an `i64`.
pub open spec fn preview_in_range(w: int, h: int) -> bool {
    &&& ratio_in_range(w, h)
    &&& vertical(w, h) ==> h != 0 && i64::MIN <= 5 * h && 4000 + 5 * h <= i64::MAX
    &&& !vertical(w, h) ==> w != 0 && i64::MIN <= 11 * w && 7000 + 11 * w <= i64::MAX
}

/// `--preview-window=<bottom|right>:<pct>%:<hidden|nohidden>`.
pub open spec fn preview_window_text(w: int, h: int, hidden: bool) -> Seq<char> {
    "--preview-window="@ + (if vertical(w, h) {
        "bottom"@
    } else {
        "right"@
    }) + ":"@ + decimal(preview_percent(w, h) as nat) + "%:"@ + (if hidden {
        "hidden"@
    } else {
        "nohidden"@
    })
}

proof fn lemma_quotient_small(n: int, d: int, k: int, c: int)
    requires
        d != 0,
        n == k * d + c,
        0 <= k <= 11,
        0 <= c <= 7000,
    ensures
        -7100 <= trunc_div(n, d) <= 7100,
{
    let x = if n >= 0 {
        n
    } else {
        -n
    };
    let y = if d >= 0 {
        d
    } else {
        -d
    };
    assert(x <= k * y + c) by (nonlinear_arith)
        requires
            n == k * d + c,
            x == (if n >= 0 {
                n
            } else {
                -n
            }),
            y == (if d >= 0 {
                d
            } else {
                -d
            }),
            0 <= k,
            0 <= c,
    ;
    assert(x / y <= 7011) by (nonlinear_arith)
        requires
            x >= 0,
            y >= 1,
            x <= k * y + c,
            k <= 11,
            c <= 7000,
    ;
}

/// The preview-window option for a `w` x `h` terminal.
pub fn preview_window(w: i64, h: i64, hidden: bool) -> (res: String)
    requires
        preview_in_range(w as int, h as int),
    ensures
        res@ == preview_window_text(w as int, h as int, hidden),
        50 <= preview_percent(w as int, h as int) <= 80,
{
    let vert = is_vertical(w, h);
    let raw: i64 = if vert {
        let q = quotient(4000 + 5 * h, h);
        proof {
            lemma_quotient_small(4000 + 5 * h, h as int, 5, 4000);
        }
        100 - q
    } else {
        let q = quotient(7000 + 11 * w, w);
        proof {
            lemma_quotient_small(7000 + 11 * w, w as int, 11, 7000);
        }
        100 - q
    };
    let pct: i64 = if raw < 50 {
        50
    } else if raw > 80 {
        80
    } else {
        raw
    };
    let mut out = String::from_str("--preview-window=");
    if vert {
        out.append("bottom");
    } else {
        out.append("right");
    }
    out.append(":");
    push_decimal(&mut out, pct as u128);
    out.append("%:");
    if hidden {
        out.append("hidden");
    } else {
        out.append("nohidden");
    }
    out
}

/// The size that `tput` reported: its output trimmed and read as an `i64`,
/// at least 1; `fallback` when it does not read as one.
pub open spec fn dimension(out: Seq<char>, fallback: int) -> int {
    match parsed_i64(trimmed(out)) {
        Some(v) => if v < 1 {
            1
        } else {
            v as int
        },
        None => fallback,
    }
}

fn read_dimension(out: &str, fallback: i64) -> (r: i64)
    requires
        fallback >= 1,
    ensures
        r == dimension(out@, fallback as int),
{
    let t = trim(out);
    let v: i64 = match parse_i64(t.as_str()) {
        Some(v) => v,
        None => fallback,
    };
    if v < 1 {
        1
    } else {
        v
    }
}

/// The terminal's `(columns, lines)` from what `tput cols` and `tput lines`
/// printed; 80 columns and 24 lines where an output does not read as a
/// number; never below 1.
pub fn term_size(cols_out: &str, lines_out: &str) -> (r: (i64, i64))
    ensures
        r.0 == dimension(cols_out@, 80),
        r.1 == dimension(lines_out@, 24),
        r.0 >= 1,
        r.1 >= 1,
{
    (read_dimension(cols_out, 80), read_dimension(lines_out, 24))
}

} // verus!
