//! The preview pane and the full-screen inspect view: which command shows a
//! status entry, the diff renderers in order of preference, and the resize
//! bindings.

use vstd::prelude::*;
use vstd::string::StringExecFns;
use crate::ansi::{banner, command_banner};
use crate::helper::string_texts;
use crate::paths::texts_of;
use crate::text::{decimal, owned, parse_i64, parsed_i64, push_decimal, same_text, signed_decimal, decimal_text};

verus! {

/// A program and its arguments.
pub struct ToolCommand {
    pub program: String,
    pub args: Vec<String>,
}

/// The `i`th field, or the empty text when there are fewer fields.
pub open spec fn field(args: Seq<Seq<char>>, i: int) -> Seq<char> {
    if 0 <= i < args.len() {
        args[i]
    } else {
        Seq::<char>::empty()
    }
}

fn field_at(args: &[&str], i: usize) -> (res: String)
    ensures
        res@ == field(texts_of(args@), i as int),
{
    if i < args.len() {
        owned(args[i])
    } else {
        String::new()
    }
}

/// How a status entry is shown.
pub enum PreviewPlan {
    /// No file field: nothing to show.
    Nothing,
    /// An untracked entry (`??`): the file or directory itself.
    Untracked { file: String },
    /// A tracked entry (in git): `git <git_args>`, rendered.
    Diff { file: String, git_args: Vec<String> },
}

/// `git [--no-pager] -c color.ui=always diff HEAD -M -- <file> [<renamed>]`:
/// the rename's other path is added when the file is gone.
pub open spec fn diff_args_text(
    file: Seq<char>,
    renamed: Seq<char>,
    file_exists: bool,
    inspect: bool,
) -> Seq<Seq<char>> {
    (if inspect {
        seq!["--no-pager"@]
    } else {
        seq![]
    }) + seq!["-c"@, "color.ui=always"@, "diff"@, "HEAD"@, "-M"@, "--"@, file] + (if !file_exists
        && renamed.len() > 0 {
        seq![renamed]
    } else {
        seq![]
    })
}

/// The fields are `{1} {2} {4}` of a status line: status, file, renamed
/// path. `inspect` is false for the preview pane and true for the
/// full-screen inspect view, which runs git without its pager.
pub open spec fn plan_matches(args: Seq<Seq<char>>, file_exists: bool, inspect: bool, p: PreviewPlan) -> bool {
    let status = field(args, 0);
    let file = field(args, 1);
    let renamed = field(args, 2);
    match p {
        PreviewPlan::Nothing => file.len() == 0,
        PreviewPlan::Untracked { file: f } => file.len() > 0 && status == "??"@ && f@ == file,
        PreviewPlan::Diff { file: f, git_args } => {
            &&& file.len() > 0
            &&& status != "??"@
            &&& f@ == file
            &&& string_texts(git_args@) == diff_args_text(file, renamed, file_exists, inspect)
        },
    }
}

/// How to show the entry whose fields fzf passed; `file_exists` tells
/// whether the file is on disk.
pub fn preview_plan(args: &[&str], file_exists: bool, inspect: bool) -> (res: PreviewPlan)
    ensures
        plan_matches(texts_of(args@), file_exists, inspect, res),
{
    let status = field_at(args, 0);
    let file = field_at(args, 1);
    let renamed = field_at(args, 2);
    if file.as_str().is_empty() {
        return PreviewPlan::Nothing;
    }
    if same_text(status.as_str(), "??") {
        return PreviewPlan::Untracked { file };
    }
    let ghost g0: Seq<Seq<char>> = if inspect {
        seq!["--no-pager"@]
    } else {
        seq![]
    };
    let mut a: Vec<String> = Vec::new();
    if inspect {
        a.push(String::from_str("--no-pager"));
    }
    assert(string_texts(a@) =~= g0);
    a.push(String::from_str("-c"));
    a.push(String::from_str("color.ui=always"));
    a.push(String::from_str("diff"));
    a.push(String::from_str("HEAD"));
    a.push(String::from_str("-M"));
    a.push(String::from_str("--"));
    a.push(owned(file.as_str()));
    let ghost g1 = g0 + seq!["-c"@, "color.ui=always"@, "diff"@, "HEAD"@, "-M"@, "--"@, file@];
    assert(string_texts(a@) =~= g1);
    if !file_exists && !renamed.as_str().is_empty() {
        a.push(owned(renamed.as_str()));
        assert(string_texts(a@) =~= g1 + seq![renamed@]);
    } else {
        assert(g1 + Seq::<Seq<char>>::empty() == g1);
    }
    PreviewPlan::Diff { file, git_args: a }
}

/// The banner above a tracked entry's diff.
pub fn diff_banner(file: &str) -> (res: String)
    ensures
        res@ == banner("git diff HEAD -M -- "@ + file@),
{
    let mut cmd = String::from_str("git diff HEAD -M -- ");
    cmd.append(file);
    command_banner(cmd.as_str())
}

/// An untracked directory: `eza -l` when eza is installed, else `ls -l`,
/// with colors; the banner names the lister.
pub fn untracked_listing(dir: &str, has_eza: bool) -> (res: (String, ToolCommand))
    ensures
        res.1.program@ == (if has_eza {
            "eza"@
        } else {
            "ls"@
        }),
        res.0@ == banner(res.1.program@ + " -l"@),
        string_texts(res.1.args@) == seq!["-l"@, "--color=always"@, dir@],
{
    let program = if has_eza {
        String::from_str("eza")
    } else {
        String::from_str("ls")
    };
    let mut cmd = owned(program.as_str());
    cmd.append(" -l");
    let b = command_banner(cmd.as_str());
    let mut args: Vec<String> = Vec::new();
    args.push(String::from_str("-l"));
    args.push(String::from_str("--color=always"));
    args.push(owned(dir));
    assert(string_texts(args@) =~= seq!["-l"@, "--color=always"@, dir@]);
    (b, ToolCommand { program, args })
}

/// An untracked file: `bat --color=always` when bat is installed, else
/// `cat`; the banner names the program.
pub fn untracked_file(file: &str, has_bat: bool) -> (res: (String, ToolCommand))
    ensures
        res.1.program@ == (if has_bat {
            "bat"@
        } else {
            "cat"@
        }),
        res.0@ == banner(res.1.program@),
        string_texts(res.1.args@) == (if has_bat {
            seq!["--color=always"@, file@]
        } else {
            seq![file@]
        }),
{
    let mut args: Vec<String> = Vec::new();
    let program = if has_bat {
        args.push(String::from_str("--color=always"));
        String::from_str("bat")
    } else {
        String::from_str("cat")
    };
    args.push(owned(file));
    assert(string_texts(args@) =~= (if has_bat {
        seq!["--color=always"@, file@]
    } else {
        seq![file@]
    }));
    let b = command_banner(program.as_str());
    (b, ToolCommand { program, args })
}

/// The diff renderers in order of preference: delta,
/// told the preview's width when known, then diff-so-fancy; when neither
/// is usable the diff is shown as it is.
pub fn diff_renderers(preview_cols: Option<i64>) -> (res: Vec<ToolCommand>)
    ensures
        res@.len() == 2,
        res@[0].program@ == "delta"@,
        string_texts(res@[0].args@) == seq!["--paging=never"@] + (match preview_cols {
            Some(c) => seq!["--width"@, signed_decimal(c as int)],
            None => seq![],
        }),
        res@[1].program@ == "diff-so-fancy"@,
        res@[1].args@.len() == 0,
{
    let mut delta_args: Vec<String> = Vec::new();
    delta_args.push(String::from_str("--paging=never"));
    match preview_cols {
        Some(c) => {
            delta_args.push(String::from_str("--width"));
            delta_args.push(decimal_text(c));
        },
        None => {},
    }
    assert(string_texts(delta_args@) =~= seq!["--paging=never"@] + (match preview_cols {
        Some(c) => seq!["--width"@, signed_decimal(c as int)],
        None => seq![],
    }));
    let mut res: Vec<ToolCommand> = Vec::new();
    res.push(ToolCommand { program: String::from_str("delta"), args: delta_args });
    res.push(ToolCommand { program: String::from_str("diff-so-fancy"), args: Vec::new() });
    res
}

/// What comes of trying a renderer.
pub enum Rendering {
    /// Show this text.
    Show(String),
    /// Try the renderer at this position.
    Try(usize),
}

/// After trying the renderer at position `tried` of `count`: its output
/// when it ran (`outcome`), else the next renderer, else the diff as it
/// is.
pub fn render_step(tried: usize, count: usize, outcome: Option<String>, input: &str) -> (r: Rendering)
    requires
        tried < count,
    ensures
        match outcome {
            Some(out) => r matches Rendering::Show(x) && x@ == out@,
            None => if tried + 1 < count {
                r matches Rendering::Try(j) && j == tried + 1
            } else {
                r matches Rendering::Show(x) && x@ == input@
            },
        },
{
    match outcome {
        Some(out) => Rendering::Show(out),
        None => if tried + 1 < count {
            Rendering::Try(tried + 1)
        } else {
            Rendering::Show(owned(input))
        },
    }
}

/// The preview's width from `$FZF_PREVIEW_COLUMNS`, when it reads as a
/// number.
pub fn preview_cols_env(value: Option<&str>) -> (res: Option<i64>)
    ensures
        res == (match value {
            Some(v) => parsed_i64(v@),
            None => None,
        }),
{
    match value {
        Some(v) => parse_i64(v),
        None => None,
    }
}

// ------------------------------------------------------------------
// resizing the preview
// ------------------------------------------------------------------

/// A number from the environment, 0 when it is unset or not a number.
pub open spec fn env_number(value: Option<Seq<char>>) -> int {
    match value {
        Some(v) => match parsed_i64(v) {
            Some(n) => n as int,
            None => 0,
        },
        None => 0,
    }
}

/// The preview's new width: 5 columns more or fewer, kept within
/// `1..=total`; none when a width is unknown or the action is neither.
pub open spec fn resized(action: Seq<char>, cur: int, total: int) -> Option<int> {
    if cur <= 0 || total <= 0 {
        None
    } else if action == "increase"@ {
        Some(clamp_to(cur + 5, total))
    } else if action == "decrease"@ {
        Some(clamp_to(cur - 5, total))
    } else {
        None
    }
}

pub open spec fn clamp_to(v: int, total: int) -> int {
    if v < 1 {
        1
    } else if v > total {
        total
    } else {
        v
    }
}

pub open spec fn opt_text(o: Option<&str>) -> Option<Seq<char>> {
    match o {
        Some(s) => Some(s@),
        None => None,
    }
}

/// The arithmetic of a resize fits in an `i64`.
pub open spec fn resize_in_range(args: Seq<Seq<char>>, preview_columns: Option<Seq<char>>) -> bool {
    field(args, 0) == "increase"@ ==> env_number(preview_columns) <= i64::MAX - 5
}

/// `preview_resize increase|decrease`: the fzf action that sets the
/// preview's width (`change-preview-window:<n>` and a newline), from
/// `$FZF_PREVIEW_COLUMNS` and `$FZF_COLUMNS`; none when nothing is to be
/// done.
pub fn helper_preview_resize(args: &[&str], preview_columns: Option<&str>, columns: Option<&str>) -> (res:
    Option<String>)
    requires
        resize_in_range(texts_of(args@), opt_text(preview_columns)),
    ensures
        match resized(
            field(texts_of(args@), 0),
            env_number(opt_text(preview_columns)),
            env_number(opt_text(columns)),
        ) {
            Some(n) => res is Some && res->0@ == "change-preview-window:"@ + decimal(n as nat)
                + "\n"@,
            None => res is None,
        },
{
    let action = field_at(args, 0);
    let cur: i64 = match preview_columns {
        Some(v) => match parse_i64(v) {
            Some(n) => n,
            None => 0,
        },
        None => 0,
    };
    let total: i64 = match columns {
        Some(v) => match parse_i64(v) {
            Some(n) => n,
            None => 0,
        },
        None => 0,
    };
    if cur <= 0 || total <= 0 {
        return None;
    }
    let next: i64 = if same_text(action.as_str(), "increase") {
        cur + 5
    } else if same_text(action.as_str(), "decrease") {
        cur - 5
    } else {
        return None;
    };
    let next = if next < 1 {
        1
    } else if next > total {
        total
    } else {
        next
    };
    let mut out = String::from_str("change-preview-window:");
    push_decimal(&mut out, next as u128);
    out.append("\n");
    Some(out)
}

/// Widening by one step and narrowing by one step gives the width back,
/// when the wider preview still fits.
pub proof fn law_resize_round_trip(cur: int, total: int)
    requires
        1 <= cur,
        cur + 5 <= total,
    ensures
        resized("increase"@, cur, total) == Some(cur + 5),
        resized("decrease"@, cur + 5, total) == Some(cur),
{
    reveal_strlit("increase");
    reveal_strlit("decrease");
    assert("increase"@ != "decrease"@) by {
        assert("increase"@[0] != "decrease"@[0]);
    }
}

/// A resize never leaves `1..=total`.
pub proof fn law_resize_within_bounds(action: Seq<char>, cur: int, total: int)
    ensures
        match resized(action, cur, total) {
            Some(n) => 1 <= n <= total,
            None => true,
        },
{
}

/// The `git diff` the preview pane runs for a tracked entry:
/// `-c color.ui=always diff HEAD -M -- <file>`, and the rename's other path
/// after it when the file is no longer on disk and there is one.
pub open spec fn pane_diff(file: Seq<char>, other: Seq<char>, gone: bool) -> Seq<Seq<char>> {
    let head = seq!["-c"@, "color.ui=always"@, "diff"@, "HEAD"@, "-M"@, "--"@];
    if gone && other.len() > 0 {
        head + seq![file, other]
    } else {
        head + seq![file]
    }
}

/// The preview pane and the inspect view show an entry the same way: both
/// show nothing, both show an untracked file, or both run the same
/// `git diff`, the inspect view with `--no-pager` in front. That diff names
/// the file, and, when the file is gone from disk and the entry has a
/// rename's other path, that path last, so that git sees the rename.
pub proof fn law_pane_and_inspect_agree(args: Seq<Seq<char>>, file_exists: bool, pane: PreviewPlan, full: PreviewPlan)
    requires
        plan_matches(args, file_exists, false, pane),
        plan_matches(args, file_exists, true, full),
    ensures
        (pane is Nothing) == (full is Nothing),
        (pane is Untracked) == (full is Untracked),
        (pane is Diff) == (full is Diff),
        match (pane, full) {
            (PreviewPlan::Diff { file: f, git_args: a }, PreviewPlan::Diff { file: g, git_args: b }) => {
                &&& f@ == g@
                &&& string_texts(b@) == seq!["--no-pager"@] + string_texts(a@)
                &&& string_texts(a@) == pane_diff(field(args, 1), field(args, 2), !file_exists)
            },
            (PreviewPlan::Untracked { file: f }, PreviewPlan::Untracked { file: g }) => f@ == g@,
            _ => true,
        },
{
    match (pane, full) {
        (PreviewPlan::Diff { file: f, git_args: a }, PreviewPlan::Diff { file: g, git_args: b }) => {
            let file = field(args, 1);
            let other = field(args, 2);
            assert(string_texts(a@) =~= pane_diff(file, other, !file_exists));
            assert(string_texts(b@) =~= seq!["--no-pager"@] + string_texts(a@));
        },
        _ => {},
    }
}

} // verus!
