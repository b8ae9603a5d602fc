//! The interactive status view: its header, the fzf command line, and the
//! reading of what the user picked.

use vstd::prelude::*;
use vstd::string::StringExecFns;
use crate::ansi::{GRAY, GREEN, NORMAL, RED, WHITE};
use crate::helper::{helper_cmd, helper_command, reload_action, reload_action_text, text_opt};
use crate::keys::Keys;
use crate::layout::{preview_in_range, preview_window, preview_window_text, small, small_screen};
use crate::text::{lc, unicode_lowercase};

verus! {

/// A binding as fzf wants it: lowercase.
pub open spec fn low(k: Seq<char>) -> Seq<char> {
    unicode_lowercase(k)
}

/// `<label>` in `color`, then the key in white.
pub open spec fn hint_text(color: Seq<char>, label: Seq<char>, key: Seq<char>) -> Seq<char> {
    color + label + NORMAL@ + " "@ + WHITE@ + key + NORMAL@
}

/// The header echoed above the list: how to accept, the editor, and the
/// legend of the key bindings.
pub open spec fn header_text(keys: Keys, editor: Seq<char>) -> Seq<char> {
    "Type to filter. "@ + WHITE@ + "Enter"@ + NORMAL@ + " to "@ + GREEN@ + "ACCEPT"@ + NORMAL@
        + "\n\n"@ + GRAY@ + "-- (*) editor: "@ + NORMAL@ + editor + "\n"@
        + hint_text(GREEN@, "amend"@, keys.amend@) + "  "@
        + hint_text(GREEN@, "stage -p"@, keys.add_patch@) + "  * "@
        + hint_text(GREEN@, "edit"@, keys.edit@) + "\n"@
        + hint_text(GREEN@, "all"@, keys.select_all@) + "  "@
        + hint_text(GREEN@, "stage"@, keys.add@) + "  "@
        + hint_text(RED@, "discard"@, keys.discard@) + "\n"@
        + hint_text(GREEN@, "none"@, keys.select_none@) + "  "@
        + hint_text(GREEN@, "reset"@, keys.reset@) + "  * "@
        + hint_text(RED@, "commit"@, keys.commit@)
}

fn push_hint(out: &mut String, color: &str, label: &str, key: &str)
    ensures
        final(out)@ == old(out)@ + hint_text(color@, label@, key@),
{
    out.append(color);
    out.append(label);
    out.append(NORMAL);
    out.append(" ");
    out.append(WHITE);
    out.append(key);
    out.append(NORMAL);
}

/// The header above the list, with the shortcut legend; `editor` is what
/// `$EDITOR` holds.
pub fn status_header(keys: &Keys, editor: &str) -> (res: String)
    ensures
        res@ == header_text(*keys, editor@),
{
    let mut out = String::from_str("Type to filter. ");
    out.append(WHITE);
    out.append("Enter");
    out.append(NORMAL);
    out.append(" to ");
    out.append(GREEN);
    out.append("ACCEPT");
    out.append(NORMAL);
    out.append("\n\n");
    out.append(GRAY);
    out.append("-- (*) editor: ");
    out.append(NORMAL);
    out.append(editor);
    out.append("\n");
    push_hint(&mut out, GREEN, "amend", keys.amend.as_str());
    out.append("  ");
    push_hint(&mut out, GREEN, "stage -p", keys.add_patch.as_str());
    out.append("  * ");
    push_hint(&mut out, GREEN, "edit", keys.edit.as_str());
    out.append("\n");
    push_hint(&mut out, GREEN, "all", keys.select_all.as_str());
    out.append("  ");
    push_hint(&mut out, GREEN, "stage", keys.add.as_str());
    out.append("  ");
    push_hint(&mut out, RED, "discard", keys.discard.as_str());
    out.append("\n");
    push_hint(&mut out, GREEN, "none", keys.select_none.as_str());
    out.append("  ");
    push_hint(&mut out, GREEN, "reset", keys.reset.as_str());
    out.append("  * ");
    push_hint(&mut out, RED, "commit", keys.commit.as_str());
    out
}

/// The keys fzf reports on the first line of its output (`--expect`):
/// edit, commit, add-patch.
pub open spec fn expect_text(keys: Keys) -> Seq<char> {
    low(keys.edit@) + ","@ + low(keys.commit@) + ","@ + low(keys.add_patch@)
}

pub fn status_expect(keys: &Keys) -> (res: String)
    ensures
        res@ == expect_text(*keys),
{
    let mut out = lc(keys.edit.as_str());
    out.append(",");
    let c = lc(keys.commit.as_str());
    out.append(c.as_str());
    out.append(",");
    let p = lc(keys.add_patch.as_str());
    out.append(p.as_str());
    out
}

/// `--bind=<key>:execute-silent(<shim> <helper> {+2..})+<then>`: the
/// binding that runs a helper on the selected paths, then `then`.
pub open spec fn silent_bind(key: Seq<char>, shim: Option<Seq<char>>, helper: Seq<char>, then: Seq<
    char,
>) -> Seq<char> {
    "--bind="@ + low(key) + ":execute-silent("@ + helper_command(shim, helper, ""@) + " {+2..})+"@
        + then
}

/// `--bind=<key>:transform(<shim> preview_resize <way>)`.
pub open spec fn resize_bind(key: Seq<char>, shim: Option<Seq<char>>, way: Seq<char>) -> Seq<char> {
    "--bind="@ + low(key) + ":transform("@ + helper_command(shim, "preview_resize"@, way) + ")"@
}

/// The fzf command line of the status view, for a
/// `w` x `h` terminal.
pub open spec fn fzf_args_text(
    keys: Keys,
    shim: Option<Seq<char>>,
    w: int,
    h: int,
    editor: Seq<char>,
) -> Seq<Seq<char>> {
    let reload = reload_action_text(shim);
    seq![
        "--ansi"@,
        "--no-sort"@,
        "--no-info"@,
        "--multi"@,
        "--track"@,
        "--listen"@,
        "--header-lines=2"@,
        "--nth=2"@,
        "--id-nth=2.."@,
        preview_window_text(w, h, false),
        "--header"@,
        if small(w, h) {
            Seq::<char>::empty()
        } else {
            header_text(keys, editor)
        },
        "--expect"@,
        expect_text(keys),
        "--preview="@ + helper_command(shim, "status_preview_content"@, "{1} {2} {4}"@),
        "--bind="@ + low(keys.wrap@) + ":toggle-preview-wrap"@,
        "--bind="@ + low(keys.select_all@) + ":select-all"@,
        "--bind="@ + low(keys.select_none@) + ":deselect-all"@,
        resize_bind(keys.size_inc@, shim, "increase"@),
        resize_bind(keys.size_dec@, shim, "decrease"@),
        "--bind=start:execute-silent("@ + helper_command(shim, "status_watch"@, ""@)
            + " $FZF_PORT > /dev/null 2>&1 &)"@,
        "--bind="@ + (low(keys.inspect@) + ":execute("@ + helper_command(
            shim,
            "status_diff"@,
            "{1} {2} {4}"@,
        ) + ")"@),
        silent_bind(keys.amend@, shim, "status_amend"@, reload + "+clear-multi"@ + "+down"@),
        silent_bind(keys.add@, shim, "status_add"@, reload + "+clear-multi"@ + "+down"@),
        silent_bind(keys.reset@, shim, "status_reset"@, reload + "+clear-multi"@ + "+down"@),
        silent_bind(keys.discard@, shim, "status_discard"@, reload),
    ]
}

fn bind_prefix(key: &str) -> (res: String)
    ensures
        res@ == "--bind="@ + low(key@),
{
    let mut out = String::from_str("--bind=");
    let k = lc(key);
    out.append(k.as_str());
    out
}

fn silent_bind_arg(key: &str, shim: Option<&str>, helper: &str, then: &str) -> (res: String)
    ensures
        res@ == silent_bind(key@, text_opt(shim), helper@, then@),
{
    let mut out = bind_prefix(key);
    out.append(":execute-silent(");
    let cmd = helper_cmd(shim, helper, "");
    out.append(cmd.as_str());
    out.append(" {+2..})+");
    out.append(then);
    out
}

fn resize_bind_arg(key: &str, shim: Option<&str>, way: &str) -> (res: String)
    ensures
        res@ == resize_bind(key@, text_opt(shim), way@),
{
    let mut out = bind_prefix(key);
    out.append(":transform(");
    let cmd = helper_cmd(shim, "preview_resize", way);
    out.append(cmd.as_str());
    out.append(")");
    out
}

/// The arguments fzf is started with for the status view; `shim` is the
/// helper shim's path, `w` x `h` the terminal, `editor` what `$EDITOR`
/// holds. Its environment is `status_fzf_env()`.
pub fn status_fzf_args(keys: &Keys, shim: Option<&str>, w: i64, h: i64, editor: &str) -> (res: Vec<
    String,
>)
    requires
        preview_in_range(w as int, h as int),
    ensures
        res@.len() == 26,
        res@[0]@ == "--ansi"@,
        res@[1]@ == "--no-sort"@,
        res@[2]@ == "--no-info"@,
        res@[3]@ == "--multi"@,
        res@[4]@ == "--track"@,
        res@[5]@ == "--listen"@,
        res@[6]@ == "--header-lines=2"@,
        res@[7]@ == "--nth=2"@,
        res@[8]@ == "--id-nth=2.."@,
        res@[9]@ == preview_window_text(w as int, h as int, false),
        res@[10]@ == "--header"@,
        res@[12]@ == "--expect"@,
        res@[13]@ == expect_text(*keys),
        res@.len() == fzf_args_text(*keys, text_opt(shim), w as int, h as int, editor@).len(),
        forall|i: int|
            0 <= i < res@.len() ==> #[trigger] res@[i]@ == fzf_args_text(
                *keys,
                text_opt(shim),
                w as int,
                h as int,
                editor@,
            )[i],
{
    let ghost spec_args = fzf_args_text(*keys, text_opt(shim), w as int, h as int, editor@);
    let ghost mut g: Seq<Seq<char>> = seq![];
    let mut a: Vec<String> = Vec::new();
    let reload = reload_action(shim);
    let mut reload_down = String::from_str(reload.as_str());
    reload_down.append("+clear-multi");
    reload_down.append("+down");

    let x = String::from_str("--ansi");
    proof { g = g.push(x@); }
    a.push(x);
    let x = String::from_str("--no-sort");
    proof { g = g.push(x@); }
    a.push(x);
    let x = String::from_str("--no-info");
    proof { g = g.push(x@); }
    a.push(x);
    let x = String::from_str("--multi");
    proof { g = g.push(x@); }
    a.push(x);
    let x = String::from_str("--track");
    proof { g = g.push(x@); }
    a.push(x);
    let x = String::from_str("--listen");
    proof { g = g.push(x@); }
    a.push(x);
    let x = String::from_str("--header-lines=2");
    proof { g = g.push(x@); }
    a.push(x);
    let x = String::from_str("--nth=2");
    proof { g = g.push(x@); }
    a.push(x);
    let x = String::from_str("--id-nth=2..");
    proof { g = g.push(x@); }
    a.push(x);
    let x = preview_window(w, h, false);
    proof { g = g.push(x@); }
    a.push(x);
    let x = String::from_str("--header");
    proof { g = g.push(x@); }
    a.push(x);
    let x = if small_screen(w, h) {
        String::new()
    } else {
        status_header(keys, editor)
    };
    proof { g = g.push(x@); }
    a.push(x);
    let x = String::from_str("--expect");
    proof { g = g.push(x@); }
    a.push(x);
    let x = status_expect(keys);
    proof { g = g.push(x@); }
    a.push(x);
    let mut x = String::from_str("--preview=");
    let cmd = helper_cmd(shim, "status_preview_content", "{1} {2} {4}");
    x.append(cmd.as_str());
    proof { g = g.push(x@); }
    a.push(x);
    let mut x = bind_prefix(keys.wrap.as_str());
    x.append(":toggle-preview-wrap");
    proof { g = g.push(x@); }
    a.push(x);
    let mut x = bind_prefix(keys.select_all.as_str());
    x.append(":select-all");
    proof { g = g.push(x@); }
    a.push(x);
    let mut x = bind_prefix(keys.select_none.as_str());
    x.append(":deselect-all");
    proof { g = g.push(x@); }
    a.push(x);
    let x = resize_bind_arg(keys.size_inc.as_str(), shim, "increase");
    proof { g = g.push(x@); }
    a.push(x);
    let x = resize_bind_arg(keys.size_dec.as_str(), shim, "decrease");
    proof { g = g.push(x@); }
    a.push(x);
    let mut x = String::from_str("--bind=start:execute-silent(");
    let cmd = helper_cmd(shim, "status_watch", "");
    x.append(cmd.as_str());
    x.append(" $FZF_PORT > /dev/null 2>&1 &)");
    proof { g = g.push(x@); }
    a.push(x);
    let mut inspect = lc(keys.inspect.as_str());
    inspect.append(":execute(");
    let cmd = helper_cmd(shim, "status_diff", "{1} {2} {4}");
    inspect.append(cmd.as_str());
    inspect.append(")");
    let mut x = String::from_str("--bind=");
    x.append(inspect.as_str());
    proof { g = g.push(x@); }
    a.push(x);
    let x = silent_bind_arg(keys.amend.as_str(), shim, "status_amend", reload_down.as_str());
    proof { g = g.push(x@); }
    a.push(x);
    let x = silent_bind_arg(keys.add.as_str(), shim, "status_add", reload_down.as_str());
    proof { g = g.push(x@); }
    a.push(x);
    let x = silent_bind_arg(keys.reset.as_str(), shim, "status_reset", reload_down.as_str());
    proof { g = g.push(x@); }
    a.push(x);
    let x = silent_bind_arg(keys.discard.as_str(), shim, "status_discard", reload.as_str());
    proof { g = g.push(x@); }
    a.push(x);
    assert(g =~= spec_args);
    a
}

/// The environment fzf is started with for the status view:
/// `GIT_OPTIONAL_LOCKS=0`, so that its previews do not take git's locks.
pub fn status_fzf_env() -> (r: (String, String))
    ensures
        r.0@ == "GIT_OPTIONAL_LOCKS"@,
        r.1@ == "0"@,
{
    (String::from_str("GIT_OPTIONAL_LOCKS"), String::from_str("0"))
}

/// The options every status view's fzf starts with.
pub open spec fn fixed_options() -> Seq<Seq<char>> {
    seq!["--ansi"@, "--no-sort"@, "--no-info"@, "--multi"@, "--track"@, "--listen"@]
        + seq!["--header-lines=2"@, "--nth=2"@, "--id-nth=2.."@]
}

/// The status view's fzf runs with its fixed options: colours, the list in
/// `git status -s` order, several picks, the cursor kept on its entry
/// across reloads, a port for the reloads, the two header lines of the
/// menu kept out of the list, filtering and identity on the path column
/// (`--nth=2`, `--id-nth=2..`); then its preview window, its header, and
/// the keys that end it (`--expect`: edit, commit, add-patch).
pub proof fn law_status_fixed_options(keys: Keys, shim: Option<Seq<char>>, w: int, h: int, editor: Seq<char>)
    ensures
        ({
            let a = fzf_args_text(keys, shim, w, h, editor);
            &&& a.len() == 26
            &&& a.take(9) == fixed_options()
            &&& a[9] == preview_window_text(w, h, false)
            &&& a[10] == "--header"@
            &&& a[12] == "--expect"@
            &&& a[13] == low(keys.edit@) + ","@ + low(keys.commit@) + ","@ + low(keys.add_patch@)
        }),
{
    let a = fzf_args_text(keys, shim, w, h, editor);
    assert(a.take(9) =~= fixed_options());
}

} // verus!
