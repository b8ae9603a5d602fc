//! Character-level text operations: building strings, trimming, splitting
//! into lines, decimal formatting and parsing, UTF-8 widths.

use vstd::prelude::*;
use vstd::string::StringExecFns;
use vstd::utf8::*;

verus! {

broadcast use vstd::string::group_string_axioms;

/// std's `String::push`: appends one character.
#[verifier::external_body]
pub(crate) fn push_char(s: &mut String, c: char)
    ensures
        final(s)@ == old(s)@.push(c),
{
    s.push(c);
}

/// Copies a string into a string of the crate's own.
pub fn owned(s: &str) -> (res: String)
    ensures
        res@ == s@,
{
    String::from_str(s)
}

/// Concatenation of two texts.
pub fn joined(a: &str, b: &str) -> (res: String)
    ensures
        res@ == a@ + b@,
{
    let mut out = String::from_str(a);
    out.append(b);
    out
}

/// The characters of `s`, in order.
pub fn chars_of(s: &str) -> (v: Vec<char>)
    ensures
        v@ == s@,
{
    let mut v: Vec<char> = Vec::new();
    for c in it: s.chars()
        invariant
            v@ == it.seq().take(it.index() as int),
            it.seq() == s@,
    {
        v.push(c);
    }
    v
}

/// The text made of `v[lo..hi]`.
pub fn string_of(v: &[char], lo: usize, hi: usize) -> (s: String)
    requires
        lo <= hi <= v@.len(),
    ensures
        s@ == v@.subrange(lo as int, hi as int),
{
    let mut s = String::new();
    let mut i = lo;
    while i < hi
        invariant
            lo <= i <= hi <= v@.len(),
            s@ == v@.subrange(lo as int, i as int),
        decreases hi - i,
    {
        push_char(&mut s, v[i]);
        assert(v@.subrange(lo as int, i + 1) == v@.subrange(lo as int, i as int).push(v@[i as int]));
        i = i + 1;
    }
    s
}

/// Whether two character sequences are equal.
pub fn same_chars(a: &[char], b: &[char]) -> (r: bool)
    ensures
        r == (a@ == b@),
{
    if a.len() != b.len() {
        return false;
    }
    let mut i: usize = 0;
    while i < a.len()
        invariant
            a@.len() == b@.len(),
            i <= a@.len(),
            forall|j: int| 0 <= j < i ==> a@[j] == b@[j],
        decreases a@.len() - i,
    {
        if a[i] != b[i] {
            return false;
        }
        i = i + 1;
    }
    assert(a@ =~= b@);
    true
}

/// Whether two texts are equal.
pub fn same_text(a: &str, b: &str) -> (r: bool)
    ensures
        r == (a@ == b@),
{
    let va = chars_of(a);
    let vb = chars_of(b);
    same_chars(va.as_slice(), vb.as_slice())
}

// ------------------------------------------------------------------
// white space and trimming
// ------------------------------------------------------------------

/// The Unicode `White_Space` property (what `char::is_whitespace` tests).
pub open spec fn is_white_space(c: char) -> bool {
    let u = c as u32;
    ||| 0x9 <= u <= 0xd
    ||| u == 0x20
    ||| u == 0x85
    ||| u == 0xa0
    ||| u == 0x1680
    ||| 0x2000 <= u <= 0x200a
    ||| u == 0x2028
    ||| u == 0x2029
    ||| u == 0x202f
    ||| u == 0x205f
    ||| u == 0x3000
}

pub fn white_space(c: char) -> (b: bool)
    ensures
        b == is_white_space(c),
{
    let u = c as u32;
    (0x9 <= u && u <= 0xd) || u == 0x20 || u == 0x85 || u == 0xa0 || u == 0x1680 || (0x2000 <= u
        && u <= 0x200a) || u == 0x2028 || u == 0x2029 || u == 0x202f || u == 0x205f || u == 0x3000
}

/// Index of the first character at or after `i` that is not white space.
pub open spec fn skip_white_from(s: Seq<char>, i: int) -> int
    decreases s.len() - i,
{
    if 0 <= i < s.len() && is_white_space(s[i]) {
        skip_white_from(s, i + 1)
    } else {
        i
    }
}

/// End (exclusive) of `s[lo..hi]` once its trailing white space is dropped.
pub open spec fn trailing_white_end(s: Seq<char>, lo: int, hi: int) -> int
    decreases hi - lo,
{
    if lo < hi && is_white_space(s[hi - 1]) {
        trailing_white_end(s, lo, hi - 1)
    } else {
        hi
    }
}

/// `s` without its leading and trailing white space (`str::trim`).
pub open spec fn trimmed(s: Seq<char>) -> Seq<char> {
    let lo = skip_white_from(s, 0);
    s.subrange(lo, trailing_white_end(s, lo, s.len() as int))
}

/// The bounds `(lo, hi)` such that `trimmed(v) == v[lo..hi]`.
pub fn trim_bounds(v: &[char]) -> (r: (usize, usize))
    ensures
        r.0 == skip_white_from(v@, 0),
        r.1 == trailing_white_end(v@, r.0 as int, v@.len() as int),
        r.0 <= r.1 <= v@.len(),
        trimmed(v@) == v@.subrange(r.0 as int, r.1 as int),
{
    let mut lo: usize = 0;
    while lo < v.len() && white_space(v[lo])
        invariant
            lo <= v@.len(),
            skip_white_from(v@, lo as int) == skip_white_from(v@, 0),
        decreases v@.len() - lo,
    {
        lo = lo + 1;
    }
    let mut hi: usize = v.len();
    while hi > lo && white_space(v[hi - 1])
        invariant
            lo <= hi <= v@.len(),
            lo == skip_white_from(v@, 0),
            trailing_white_end(v@, lo as int, hi as int) == trailing_white_end(
                v@,
                lo as int,
                v@.len() as int,
            ),
        decreases hi - lo,
    {
        hi = hi - 1;
    }
    (lo, hi)
}

/// `str::trim`, as an owned text.
pub fn trim(s: &str) -> (res: String)
    ensures
        res@ == trimmed(s@),
{
    let v = chars_of(s);
    let (lo, hi) = trim_bounds(v.as_slice());
    string_of(v.as_slice(), lo, hi)
}

/// Whether `s` holds nothing but white space (`s.trim().is_empty()`).
pub fn is_blank(s: &str) -> (b: bool)
    ensures
        b == (trimmed(s@).len() == 0),
{
    let v = chars_of(s);
    let (lo, hi) = trim_bounds(v.as_slice());
    lo == hi
}

// ------------------------------------------------------------------
// lines
// ------------------------------------------------------------------

/// Index of the first `'\n'` at or after `i`, or `s.len()` when there is none.
pub open spec fn newline_from(s: Seq<char>, i: int) -> int
    decreases s.len() - i,
{
    if i < 0 || i >= s.len() {
        s.len() as int
    } else if s[i] == '\n' {
        i
    } else {
        newline_from(s, i + 1)
    }
}

/// A line without the `'\r'` of a `"\r\n"` ending.
pub open spec fn without_cr(l: Seq<char>) -> Seq<char> {
    if l.len() > 0 && l.last() == '\r' {
        l.drop_last()
    } else {
        l
    }
}

proof fn lemma_newline_bounds(s: Seq<char>, i: int)
    requires
        0 <= i <= s.len(),
    ensures
        i <= newline_from(s, i) <= s.len(),
        newline_from(s, i) < s.len() ==> s[newline_from(s, i)] == '\n',
    decreases s.len() - i,
{
    if i < s.len() && s[i] != '\n' {
        lemma_newline_bounds(s, i + 1);
    }
}

/// The lines of `s[start..]` as `str::lines` yields them: split at each
/// `'\n'`, a `'\r'` just before it dropped, and no empty line after a final
/// line ending.
pub open spec fn lines_from(s: Seq<char>, start: int) -> Seq<Seq<char>>
    decreases s.len() - start,
{
    if start < 0 || start >= s.len() {
        seq![]
    } else {
        let j = newline_from(s, start);
        if j >= s.len() {
            seq![s.subrange(start, s.len() as int)]
        } else if j < start {
            seq![]
        } else {
            seq![without_cr(s.subrange(start, j))] + lines_from(s, j + 1)
        }
    }
}

/// The lines of `s` (`str::lines`).
pub open spec fn text_lines(s: Seq<char>) -> Seq<Seq<char>> {
    lines_from(s, 0)
}

/// `str::lines`, as owned texts.
pub fn lines(s: &str) -> (res: Vec<String>)
    ensures
        res@.len() == text_lines(s@).len(),
        forall|i: int| 0 <= i < res@.len() ==> #[trigger] res@[i]@ == text_lines(s@)[i],
{
    let v = chars_of(s);
    let n = v.len();
    let mut out: Vec<String> = Vec::new();
    let ghost outv: Seq<Seq<char>> = seq![];
    let mut start: usize = 0;
    while start < n
        invariant
            n == v@.len(),
            v@ == s@,
            start <= n,
            out@.len() == outv.len(),
            forall|i: int| 0 <= i < out@.len() ==> #[trigger] out@[i]@ == outv[i],
            text_lines(v@) == outv + lines_from(v@, start as int),
        decreases n - start,
    {
        let mut j = start;
        while j < n && v[j] != '\n'
            invariant
                start <= j <= n,
                n == v@.len(),
                newline_from(v@, j as int) == newline_from(v@, start as int),
            decreases n - j,
        {
            j = j + 1;
        }
        proof {
            lemma_newline_bounds(v@, start as int);
        }
        if j >= n {
            let piece = string_of(v.as_slice(), start, n);
            proof {
                outv = outv.push(piece@);
            }
            out.push(piece);
            start = n;
        } else {
            let mut hi = j;
            if hi > start && v[hi - 1] == '\r' {
                hi = hi - 1;
            }
            let piece = string_of(v.as_slice(), start, hi);
            proof {
                let whole = v@.subrange(start as int, j as int);
                if j > start && v@[j - 1] == '\r' {
                    assert(whole.drop_last() == v@.subrange(start as int, hi as int));
                }
                assert(piece@ == without_cr(whole));
                assert(lines_from(v@, start as int) == seq![piece@] + lines_from(v@, j + 1));
                assert(outv + (seq![piece@] + lines_from(v@, j + 1)) == outv.push(piece@)
                    + lines_from(v@, j + 1));
                outv = outv.push(piece@);
            }
            out.push(piece);
            start = j + 1;
        }
    }
    assert(outv + lines_from(v@, start as int) == outv);
    out
}

// ------------------------------------------------------------------
// decimal numbers
// ------------------------------------------------------------------

/// The ASCII digit for `d` (`d < 10`).
pub open spec fn digit_char(d: nat) -> char {
    (48 + d) as char
}

/// The decimal digits of `n`, most significant first, with no leading zero.
pub open spec fn decimal(n: nat) -> Seq<char>
    decreases n,
{
    if n < 10 {
        seq![digit_char(n)]
    } else {
        decimal(n / 10).push(digit_char(n % 10))
    }
}

/// `n` written in decimal with a leading `-` when negative (`Display` of an
/// integer).
pub open spec fn signed_decimal(n: int) -> Seq<char> {
    if n < 0 {
        seq!['-'] + decimal((-n) as nat)
    } else {
        decimal(n as nat)
    }
}

fn digit(d: u128) -> (c: char)
    requires
        d < 10,
    ensures
        c == digit_char(d as nat),
{
    let b: u8 = d as u8 + 48;
    b as char
}

/// Appends the decimal digits of `n`.
pub fn push_decimal(out: &mut String, n: u128)
    ensures
        final(out)@ == old(out)@ + decimal(n as nat),
    decreases n,
{
    if n >= 10 {
        push_decimal(out, n / 10);
    }
    push_char(out, digit(n % 10));
}

/// Appends `n` in decimal, with a `-` when negative.
pub fn push_signed_decimal(out: &mut String, n: i64)
    ensures
        final(out)@ == old(out)@ + signed_decimal(n as int),
{
    if n < 0 {
        push_char(out, '-');
        let m: u64 = (-(n as i128)) as u64;
        push_decimal(out, m as u128);
    } else {
        push_decimal(out, n as u128);
    }
}

/// `n.to_string()`.
pub fn decimal_text(n: i64) -> (res: String)
    ensures
        res@ == signed_decimal(n as int),
{
    let mut out = String::new();
    push_signed_decimal(&mut out, n);
    out
}

// ------------------------------------------------------------------
// parsing integers (`str::parse` for `i64` and `u16`)
// ------------------------------------------------------------------

pub open spec fn is_digit(c: char) -> bool {
    48 <= (c as u32) <= 57
}

/// Whether `s` is one or more ASCII digits.
pub open spec fn all_digits(s: Seq<char>) -> bool {
    s.len() > 0 && forall|i: int| 0 <= i < s.len() ==> is_digit(#[trigger] s[i])
}

/// The value of a run of ASCII digits.
pub open spec fn digits_value(s: Seq<char>) -> nat
    decreases s.len(),
{
    if s.len() == 0 {
        0
    } else {
        digits_value(s.drop_last()) * 10 + ((s.last() as u32) - 48) as nat
    }
}

/// The integer that `s` spells: an optional `+` or `-`, then ASCII digits.
pub open spec fn integer_value(s: Seq<char>) -> Option<int> {
    if s.len() > 0 && (s[0] == '+' || s[0] == '-') && all_digits(s.drop_first()) {
        if s[0] == '-' {
            Some(-(digits_value(s.drop_first()) as int))
        } else {
            Some(digits_value(s.drop_first()) as int)
        }
    } else if all_digits(s) {
        Some(digits_value(s) as int)
    } else {
        None
    }
}

/// What `s.parse::<i64>().ok()` gives.
pub open spec fn parsed_i64(s: Seq<char>) -> Option<i64> {
    match integer_value(s) {
        Some(v) => if i64::MIN <= v <= i64::MAX {
            Some(v as i64)
        } else {
            None
        },
        None => None,
    }
}

/// What `s.parse::<u16>().ok()` gives: like `i64`, but a `-` sign is refused.
pub open spec fn parsed_u16(s: Seq<char>) -> Option<u16> {
    if s.len() > 0 && s[0] == '-' {
        None
    } else {
        match integer_value(s) {
            Some(v) => if 0 <= v <= u16::MAX {
                Some(v as u16)
            } else {
                None
            },
            None => None,
        }
    }
}

/// The decimal digits of `n` are digits, and spell `n`.
proof fn lemma_decimal_spells(n: nat)
    ensures
        all_digits(decimal(n)),
        digits_value(decimal(n)) == n,
    decreases n,
{
    if n < 10 {
        let s = decimal(n);
        assert(s.drop_last() =~= Seq::<char>::empty());
        assert(digit_char(n) as u32 == 48 + n);
        assert(s.last() == digit_char(n));
        assert(digits_value(s) == digits_value(s.drop_last()) * 10 + ((s.last() as u32) - 48) as nat);
        assert(digits_value(s) == n);
    } else {
        lemma_decimal_spells(n / 10);
        let s = decimal(n);
        assert(s.drop_last() == decimal(n / 10));
        assert(digit_char(n % 10) as u32 == 48 + n % 10);
        assert(n == (n / 10) * 10 + n % 10);
        assert(s.last() == digit_char(n % 10));
        assert(digits_value(s) == n);
        assert forall|i: int| 0 <= i < s.len() implies is_digit(#[trigger] s[i]) by {
            if i < s.len() - 1 {
                assert(s[i] == decimal(n / 10)[i]);
            }
        }
    }
}

/// An integer written in decimal reads back as itself: what
/// `n.to_string()` writes, `str::parse` gives back, for `i64` and for
/// `u16`.
pub proof fn law_decimal_reads_back(n: i64, m: u16)
    ensures
        parsed_i64(signed_decimal(n as int)) == Some(n),
        parsed_u16(decimal(m as nat)) == Some(m),
{
    if n < 0 {
        let d = decimal((-n) as nat);
        lemma_decimal_spells((-n) as nat);
        let s = seq!['-'] + d;
        assert(s.drop_first() =~= d);
    } else {
        let d = decimal(n as nat);
        lemma_decimal_spells(n as nat);
        assert(is_digit(d[0]));
    }
    let e = decimal(m as nat);
    lemma_decimal_spells(m as nat);
    assert(is_digit(e[0]));
}

proof fn lemma_digits_value_prefix(s: Seq<char>, k: int)
    requires
        0 <= k <= s.len(),
        forall|i: int| 0 <= i < s.len() ==> is_digit(#[trigger] s[i]),
    ensures
        digits_value(s.subrange(0, k)) <= digits_value(s),
    decreases s.len(),
{
    if k < s.len() {
        let t = s.drop_last();
        assert(t.subrange(0, k) == s.subrange(0, k));
        assert forall|i: int| 0 <= i < t.len() implies is_digit(#[trigger] t[i]) by {
            assert(t[i] == s[i]);
        }
        lemma_digits_value_prefix(t, k);
    } else {
        assert(s.subrange(0, k) == s);
    }
}

/// The value of the digits `v[start..]`, when they are all digits and the
/// value is at most `limit`.
fn digits_upto(v: &[char], start: usize, limit: u64) -> (r: Option<u64>)
    requires
        start <= v@.len(),
    ensures
        r == (if all_digits(v@.skip(start as int)) && digits_value(v@.skip(start as int))
            <= limit {
            Some(digits_value(v@.skip(start as int)) as u64)
        } else {
            None
        }),
{
    let ghost t = v@.skip(start as int);
    if start >= v.len() {
        return None;
    }
    let mut acc: u128 = 0;
    let mut i = start;
    while i < v.len()
        invariant
            start <= i <= v@.len(),
            t == v@.skip(start as int),
            forall|j: int| 0 <= j < i - start ==> is_digit(#[trigger] t[j]),
            acc == digits_value(t.subrange(0, i - start)),
            acc <= limit,
        decreases v@.len() - i,
    {
        let c = v[i];
        let u = c as u32;
        if u < 48 || u > 57 {
            assert(!is_digit(t[i - start]));
            return None;
        }
        let d = (u - 48) as u128;
        assert(t.subrange(0, i - start + 1).drop_last() == t.subrange(0, i - start));
        assert(acc * 10 <= 0xffff_ffff_ffff_ffff_0) by (nonlinear_arith)
            requires
                acc <= 0xffff_ffff_ffff_ffff,
        ;
        acc = acc * 10 + d;
        assert(acc == digits_value(t.subrange(0, i - start + 1)));
        if acc > limit as u128 {
            proof {
                if all_digits(t) {
                    lemma_digits_value_prefix(t, i - start + 1);
                }
            }
            return None;
        }
        i = i + 1;
    }
    assert(t.subrange(0, t.len() as int) == t);
    Some(acc as u64)
}

/// `s.parse::<i64>().ok()`.
pub fn parse_i64(s: &str) -> (r: Option<i64>)
    ensures
        r == parsed_i64(s@),
{
    let v = chars_of(s);
    if v.len() > 0 && (v[0] == '+' || v[0] == '-') {
        assert(v@.skip(1) == v@.drop_first());
        if v[0] == '-' {
            match digits_upto(v.as_slice(), 1, 0x8000_0000_0000_0000) {
                Some(m) => {
                    if m == 0x8000_0000_0000_0000 {
                        Some(i64::MIN)
                    } else {
                        Some(-(m as i64))
                    }
                },
                None => {
                    proof {
                        assert(!is_digit('-'));
                    }
                    None
                },
            }
        } else {
            match digits_upto(v.as_slice(), 1, 0x7fff_ffff_ffff_ffff) {
                Some(m) => Some(m as i64),
                None => {
                    assert(!is_digit('+'));
                    None
                },
            }
        }
    } else {
        assert(v@.skip(0) == v@);
        match digits_upto(v.as_slice(), 0, 0x7fff_ffff_ffff_ffff) {
            Some(m) => Some(m as i64),
            None => None,
        }
    }
}

/// `s.parse::<u16>().ok()`.
pub fn parse_u16(s: &str) -> (r: Option<u16>)
    ensures
        r == parsed_u16(s@),
{
    let v = chars_of(s);
    if v.len() > 0 && v[0] == '-' {
        None
    } else if v.len() > 0 && v[0] == '+' {
        assert(v@.skip(1) == v@.drop_first());
        assert(!is_digit('+'));
        match digits_upto(v.as_slice(), 1, 0xffff) {
            Some(m) => Some(m as u16),
            None => None,
        }
    } else {
        assert(v@.skip(0) == v@);
        match digits_upto(v.as_slice(), 0, 0xffff) {
            Some(m) => Some(m as u16),
            None => None,
        }
    }
}

// ------------------------------------------------------------------
// UTF-8 widths
// ------------------------------------------------------------------

/// Number of bytes in the UTF-8 encoding of `c`.
pub open spec fn utf8_width(c: char) -> int {
    let u = c as u32;
    if u <= 0x7f {
        1
    } else if u <= 0x7ff {
        2
    } else if u <= 0xffff {
        3
    } else {
        4
    }
}

/// Whether the first `n` bytes of the UTF-8 encoding of `s` end on a
/// character boundary.
pub open spec fn byte_boundary(s: Seq<char>, n: int) -> bool
    decreases s.len(),
{
    if n == 0 {
        true
    } else if n < 0 || s.len() == 0 {
        false
    } else {
        byte_boundary(s.drop_first(), n - utf8_width(s[0]))
    }
}

/// The characters left once the first `n` bytes of the UTF-8 encoding of
/// `s` are dropped (`&s[n..]`, when `n` is a character boundary).
pub open spec fn skip_bytes(s: Seq<char>, n: int) -> Seq<char>
    decreases s.len(),
{
    if n <= 0 || s.len() == 0 {
        s
    } else {
        skip_bytes(s.drop_first(), n - utf8_width(s[0]))
    }
}

/// The width of a character's encoding is the length that `encode_utf8`
/// gives it.
pub proof fn lemma_utf8_width(c: char)
    ensures
        encode_scalar(c as u32).len() == utf8_width(c),
{
    char_is_scalar(c);
}

/// `&s[n..]` as an owned text, for a byte offset `n` on a character boundary.
pub fn drop_bytes(s: &str, n: usize) -> (res: String)
    requires
        byte_boundary(s@, n as int),
    ensures
        res@ == skip_bytes(s@, n as int),
{
    let v = chars_of(s);
    let mut i: usize = 0;
    let mut left: usize = n;
    assert(v@.skip(0) == v@);
    while left > 0 && i < v.len()
        invariant
            i <= v@.len(),
            left <= n,
            byte_boundary(v@.skip(i as int), left as int),
            skip_bytes(v@, n as int) == skip_bytes(v@.skip(i as int), left as int),
        decreases v@.len() - i,
    {
        let c = v[i];
        let u = c as u32;
        let w: usize = if u <= 0x7f {
            1
        } else if u <= 0x7ff {
            2
        } else if u <= 0xffff {
            3
        } else {
            4
        };
        let ghost t = v@.skip(i as int);
        assert(t[0] == c);
        assert(w == utf8_width(c));
        assert(t.drop_first() == v@.skip(i + 1));
        if w > left {
            assert(!byte_boundary(t.drop_first(), left - w));
            assert(!byte_boundary(t, left as int));
            return String::new();
        }
        left = left - w;
        i = i + 1;
    }
    if left > 0 {
        assert(v@.skip(i as int).len() == 0);
    }
    string_of(v.as_slice(), i, v.len())
}

/// The encoding of a concatenation is the concatenation of the encodings.
pub proof fn lemma_encode_utf8_concat(a: Seq<char>, b: Seq<char>)
    ensures
        encode_utf8(a + b) == encode_utf8(a) + encode_utf8(b),
    decreases a.len(),
{
    if a.len() == 0 {
        assert(a + b == b);
        assert(encode_utf8(a) + encode_utf8(b) == encode_utf8(b));
    } else {
        assert((a + b).drop_first() == a.drop_first() + b);
        assert((a + b)[0] == a[0]);
        lemma_encode_utf8_concat(a.drop_first(), b);
    }
}

/// Number of bytes in the UTF-8 encoding of `s` (`s.len()`).
pub fn byte_count(s: &str) -> (r: u128)
    ensures
        r == encode_utf8(s@).len(),
{
    let v = chars_of(s);
    let mut acc: u128 = 0;
    let mut i: usize = 0;
    while i < v.len()
        invariant
            i <= v@.len(),
            acc <= 4 * i,
            acc == encode_utf8(v@.take(i as int)).len(),
        decreases v@.len() - i,
    {
        let c = v[i];
        let u = c as u32;
        let w: u128 = if u <= 0x7f {
            1
        } else if u <= 0x7ff {
            2
        } else if u <= 0xffff {
            3
        } else {
            4
        };
        proof {
            lemma_utf8_width(c);
            assert(v@.take(i + 1) == v@.take(i as int) + seq![c]);
            lemma_encode_utf8_concat(v@.take(i as int), seq![c]);
            assert(seq![c].drop_first() == Seq::<char>::empty());
            assert(encode_utf8(seq![c]) == encode_scalar(c as u32) + encode_utf8(
                Seq::<char>::empty(),
            ));
            assert(w == utf8_width(c));
        }
        acc = acc + w;
        i = i + 1;
    }
    assert(v@.take(v@.len() as int) == v@);
    acc
}

/// Whether the UTF-8 encoding of `s` is longer than `n` bytes
/// (`s.len() > n`).
pub fn longer_in_bytes(s: &str, n: usize) -> (b: bool)
    ensures
        b == (encode_utf8(s@).len() > n),
{
    let v = chars_of(s);
    let mut acc: usize = 0;
    let mut i: usize = 0;
    while i < v.len()
        invariant
            i <= v@.len(),
            acc <= n,
            v@ == s@,
            acc == encode_utf8(v@.take(i as int)).len(),
        decreases v@.len() - i,
    {
        let c = v[i];
        let u = c as u32;
        let w: usize = if u <= 0x7f {
            1
        } else if u <= 0x7ff {
            2
        } else if u <= 0xffff {
            3
        } else {
            4
        };
        proof {
            lemma_utf8_width(c);
            assert(v@.take(i + 1) == v@.take(i as int) + seq![c]);
            lemma_encode_utf8_concat(v@.take(i as int), seq![c]);
            assert(seq![c].drop_first() == Seq::<char>::empty());
            assert(encode_utf8(seq![c]) == encode_scalar(c as u32) + encode_utf8(
                Seq::<char>::empty(),
            ));
            assert(v@ == v@.take(i + 1) + v@.skip(i + 1));
            lemma_encode_utf8_concat(v@.take(i + 1), v@.skip(i + 1));
            assert(w == utf8_width(c));
            assert(encode_utf8(v@.take(i + 1)).len() == acc + w);
            assert(encode_utf8(s@).len() >= acc + w);
        }
        if w > n - acc {
            return true;
        }
        acc = acc + w;
        i = i + 1;
    }
    assert(v@.take(v@.len() as int) == v@);
    false
}

// ------------------------------------------------------------------
// lowercase
// ------------------------------------------------------------------

/// What std's `str::to_lowercase` returns for a text: the Unicode lowercase
/// mapping, a function of the characters alone.
pub uninterp spec fn unicode_lowercase(s: Seq<char>) -> Seq<char>;

/// std's `str::to_lowercase`. Trusted: its result is `unicode_lowercase` of
/// the argument; nothing more is stated of that mapping.
#[verifier::external_body]
fn str_to_lowercase(s: &str) -> (res: String)
    ensures
        res@ == unicode_lowercase(s@),
{
    s.to_lowercase()
}

/// fzf bind keys must be lowercase (`alt-m`); the labels shown to the user
/// keep the configured case (`Alt-M`).
pub fn lc(s: &str) -> (res: String)
    ensures
        res@ == unicode_lowercase(s@),
{
    str_to_lowercase(s)
}

} // verus!
