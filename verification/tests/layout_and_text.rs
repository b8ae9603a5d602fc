use git_fuzzy::{is_vertical, lc, preview_window, shell_quote, small_screen, strip_rename};

#[test]
fn lc_lowercases() {
    assert_eq!(lc("Ctrl-A"), "ctrl-a");
}

#[test]
fn is_vertical_threshold() {
    assert!(is_vertical(80, 50)); // 800 < 1000
    assert!(!is_vertical(200, 50)); // 2000 !< 1000
    assert!(!is_vertical(100, 50)); // exactly 2.0 ratio -> not vertical
}

#[test]
fn preview_window_layout() {
    // vertical: bottom, pct = clamp(100 - (4000+5H)/H)
    assert_eq!(
        preview_window(80, 50, false),
        "--preview-window=bottom:50%:nohidden"
    );
    // horizontal: right, pct = clamp(100 - (7000+11W)/W)
    assert_eq!(
        preview_window(200, 50, true),
        "--preview-window=right:54%:hidden"
    );
}

#[test]
fn small_screen_rules() {
    assert!(small_screen(80, 50)); // vertical, h<=60
    assert!(!small_screen(80, 61)); // vertical, h>60
    assert!(small_screen(200, 30)); // horizontal, h<=30
    assert!(!small_screen(200, 31)); // horizontal, h>30
}

#[test]
fn shell_quote_escapes_single_quotes() {
    assert_eq!(shell_quote("plain"), "'plain'");
    assert_eq!(shell_quote("it's"), r"'it'\''s'");
}

#[test]
fn strip_rename_keeps_destination() {
    assert_eq!(strip_rename("old/name -> new/name"), "new/name");
    assert_eq!(strip_rename("unrenamed/path"), "unrenamed/path");
}

use git_fuzzy::layout::preview_window as window;
use git_fuzzy::quote::shell_quote as quote;
use git_fuzzy::term_size;
use git_fuzzy::text::{
    byte_count, decimal_text, drop_bytes, is_blank, lines, longer_in_bytes, parse_i64, parse_u16,
    same_text, trim,
};

#[test]
fn vertical_ratio_boundary() {
    // w / h < 2.0 exactly when w < 2h
    assert!(is_vertical(99, 50));
    assert!(!is_vertical(100, 50));
    assert!(is_vertical(1, 1));
}

#[test]
fn preview_percent_is_clamped() {
    // tiny terminals: 100 - (4000 + 5) / 1 is far below 50
    assert_eq!(window(1, 1, false), "--preview-window=bottom:50%:nohidden");
    // very wide: 100 - (7000 + 11 * 100000) / 100000 = 100 - 11 = 89 -> 80
    assert_eq!(window(100000, 100, true), "--preview-window=right:80%:hidden");
    // 100 - (7000 + 11 * 300) / 300 = 100 - 34 = 66
    assert_eq!(window(300, 60, false), "--preview-window=right:66%:nohidden");
    // vertical with a tall screen: 100 - (4000 + 5 * 400) / 400 = 100 - 15 = 85 -> 80
    assert_eq!(window(100, 400, false), "--preview-window=bottom:80%:nohidden");
    // negative sizes divide toward zero: -100 < -40 is vertical,
    // 100 - (4000 - 10) / -2 = 100 + 1995 -> 80
    assert_eq!(window(-10, -2, false), "--preview-window=bottom:80%:nohidden");
    // 100 - (4000 + 5 * 7) / 7 = 100 - 576 -> 50 (576.4 rounds toward zero)
    assert_eq!(window(1, 7, true), "--preview-window=bottom:50%:hidden");
}

#[test]
fn term_size_reads_tput_output() {
    assert_eq!(term_size("120\n", " 40 \n"), (120, 40));
    assert_eq!(term_size("", "abc"), (80, 24));
    assert_eq!(term_size("0", "-5"), (1, 1));
    assert_eq!(term_size("+7", "99999999999999999999"), (7, 24));
}

#[test]
fn shell_quote_edge_cases() {
    assert_eq!(quote(""), "''");
    assert_eq!(quote("'"), r"''\'''");
    assert_eq!(quote("a b"), "'a b'");
    assert_eq!(quote("/tmp/my lib's.so"), r"'/tmp/my lib'\''s.so'");
}

#[test]
fn strip_rename_uses_last_separator() {
    assert_eq!(strip_rename("a -> b -> c"), "c");
    assert_eq!(strip_rename(" -> -> "), "");
    assert_eq!(strip_rename("a->b"), "a->b");
    let once = strip_rename("x -> y -> z");
    assert_eq!(strip_rename(&once), once);
}

#[test]
fn lc_keeps_non_letters() {
    assert_eq!(lc("Alt-="), "alt-=");
    assert_eq!(lc("ÄLT"), "ält");
}

#[test]
fn trimming_and_blank_text() {
    assert_eq!(trim(" \t x y \n"), "x y");
    assert_eq!(trim("\u{3000}a\u{85}"), "a");
    assert!(is_blank(" \n\t "));
    assert!(is_blank(""));
    assert!(!is_blank(" M a\n"));
}

#[test]
fn lines_follow_str_lines() {
    assert_eq!(lines("a\r\nb\n\nc\r"), vec!["a", "b", "", "c\r"]);
    assert_eq!(lines("x\n"), vec!["x"]);
    assert_eq!(lines("\n"), vec![""]);
    assert!(lines("").is_empty());
}

#[test]
fn integers_parse_like_std() {
    assert_eq!(parse_i64("-9223372036854775808"), Some(i64::MIN));
    assert_eq!(parse_i64("9223372036854775807"), Some(i64::MAX));
    assert_eq!(parse_i64("9223372036854775808"), None);
    assert_eq!(parse_i64("+12"), Some(12));
    assert_eq!(parse_i64("007"), Some(7));
    assert_eq!(parse_i64("+"), None);
    assert_eq!(parse_i64("-"), None);
    assert_eq!(parse_i64(""), None);
    assert_eq!(parse_i64(" 1"), None);
    assert_eq!(parse_i64("1x"), None);
    assert_eq!(parse_u16("65535"), Some(65535));
    assert_eq!(parse_u16("65536"), None);
    assert_eq!(parse_u16("-0"), None);
    assert_eq!(parse_u16("+80"), Some(80));
    for s in ["0", "42", "-17", "+3", "12345678901234567890", "9x"] {
        assert_eq!(parse_i64(s), s.parse::<i64>().ok());
        assert_eq!(parse_u16(s), s.parse::<u16>().ok());
    }
}

#[test]
fn decimals_like_to_string() {
    for n in [0i64, 7, 10, 99, 12345, -1, -80, i64::MIN, i64::MAX] {
        assert_eq!(decimal_text(n), n.to_string());
    }
}

#[test]
fn utf8_byte_lengths() {
    assert_eq!(byte_count("abc"), 3);
    assert_eq!(byte_count("é€😀"), 2 + 3 + 4);
    assert!(longer_in_bytes("M  ab", 3));
    assert!(!longer_in_bytes("M  ", 3));
    assert!(longer_in_bytes("€€", 3));
    assert!(!longer_in_bytes("é", 3));
    assert_eq!(drop_bytes("?? new file", 3), "new file");
    assert_eq!(drop_bytes("é€x", 5), "x");
}

#[test]
fn text_equality() {
    assert!(same_text("->", "->"));
    assert!(!same_text("->", "-> "));
    assert!(!same_text("", "a"));
}

/// How a POSIX shell reads a word of plain characters, backslash escapes and
/// single-quoted stretches.
fn read_shell_word(w: &str) -> Option<String> {
    let mut out = String::new();
    let mut quoting = false;
    let mut it = w.chars().peekable();
    while let Some(c) = it.next() {
        if quoting {
            if c == '\'' {
                quoting = false;
            } else {
                out.push(c);
            }
        } else if c == '\'' {
            quoting = true;
        } else if c == '\\' && it.peek().is_some() {
            out.push(it.next().unwrap());
        } else {
            out.push(c);
        }
    }
    if quoting {
        None
    } else {
        Some(out)
    }
}

#[test]
fn quoted_text_reads_back() {
    for s in ["", "plain", "it's", "''", "a b\\c", "$HOME \"x\" `y`", "é'ü"] {
        assert_eq!(read_shell_word(&quote(s)), Some(s.to_string()));
    }
}

#[test]
fn text_operations_agree_with_std() {
    let samples = [
        "",
        "\n",
        "a",
        "a\nb",
        "a\r\nb\r\n",
        "x\r",
        "\r\n\r\n",
        " \u{a0}mid\u{2028} ",
        "\u{1680}\u{2000}\u{200a}\u{202f}\u{205f}\u{3000}q\u{85}\u{b}\u{c}",
        "\u{200b}zero-width\u{feff}",
        "é\nü\n\n",
    ];
    for s in samples {
        assert_eq!(lines(s), s.lines().collect::<Vec<_>>(), "lines of {s:?}");
        assert_eq!(trim(s), s.trim(), "trim of {s:?}");
        assert_eq!(is_blank(s), s.trim().is_empty(), "blank {s:?}");
        assert_eq!(byte_count(s), s.len() as u128);
    }
}
