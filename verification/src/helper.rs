//! How fzf calls back into the plugin: the helper shim, the command lines
//! fzf runs, and the reading of `gf`'s arguments.

use vstd::prelude::*;
use vstd::string::StringExecFns;
use crate::quote::{shell_quote, single_quoted};
use crate::text::{owned, same_text};

verus! {

/// The text of an optional string slice.
pub open spec fn text_opt(o: Option<&str>) -> Option<Seq<char>> {
    match o {
        Some(s) => Some(s@),
        None => None,
    }
}

/// The texts of a list of strings.
pub open spec fn string_texts(v: Seq<String>) -> Seq<Seq<char>> {
    Seq::new(v.len(), |i: int| v[i]@)
}

/// The shim's path, or a placeholder command when no shim could be written.
pub open spec fn shim_or_placeholder(shim: Option<Seq<char>>) -> Seq<char> {
    match shim {
        Some(s) => s,
        None => "gf-helper-unavailable"@,
    }
}

/// `<shim> <sub>`, followed by ` <fzf-args>` when there are any.
pub open spec fn helper_command(shim: Option<Seq<char>>, sub: Seq<char>, fzf_args: Seq<char>) -> Seq<
    char,
> {
    if fzf_args.len() == 0 {
        shim_or_placeholder(shim) + " "@ + sub
    } else {
        shim_or_placeholder(shim) + " "@ + sub + " "@ + fzf_args
    }
}

/// `<shim> <sub> <fzf-args…>`: the string an fzf action runs.
pub fn helper_cmd(shim: Option<&str>, sub: &str, fzf_args: &str) -> (res: String)
    ensures
        res@ == helper_command(text_opt(shim), sub@, fzf_args@),
{
    let mut out = match shim {
        Some(s) => String::from_str(s),
        None => String::from_str("gf-helper-unavailable"),
    };
    out.append(" ");
    out.append(sub);
    if !fzf_args.is_empty() {
        out.append(" ");
        out.append(fzf_args);
    }
    out
}

/// `reload-sync(<shim> status_menu_content)`: the fzf action that reloads
/// the list.
pub open spec fn reload_action_text(shim: Option<Seq<char>>) -> Seq<char> {
    "reload-sync("@ + helper_command(shim, "status_menu_content"@, ""@) + ")"@
}

pub fn reload_action(shim: Option<&str>) -> (res: String)
    ensures
        res@ == reload_action_text(text_opt(shim)),
{
    let mut out = String::from_str("reload-sync(");
    let cmd = helper_cmd(shim, "status_menu_content", "");
    out.append(cmd.as_str());
    out.append(")");
    out
}

/// The directory the shim lives in: `$HOME/.cache/zshrs`.
pub fn shim_dir(home: &str) -> (res: String)
    ensures
        res@ == home@ + "/.cache/zshrs"@,
{
    let mut out = String::from_str(home);
    out.append("/.cache/zshrs");
    out
}

/// The shim's path: `$HOME/.cache/zshrs/gf-helper.sh`.
pub fn shim_path(home: &str) -> (res: String)
    ensures
        res@ == home@ + "/.cache/zshrs"@ + "/gf-helper.sh"@,
{
    let mut out = shim_dir(home);
    out.append("/gf-helper.sh");
    out
}

/// The shim script: it runs `gf --helper "$@"` in a fresh zshrs that loads
/// this plugin, the plugin's path passed as `$0` so that a path with spaces
/// survives.
pub open spec fn shim_script_text(zshrs: Seq<char>, dylib: Seq<char>) -> Seq<char> {
    "#!/bin/sh\nexec "@ + single_quoted(zshrs)
        + " -fc 'zmodload -R \"$0\" 2>/dev/null; gf --helper \"$@\"' "@ + single_quoted(dylib)
        + " \"$@\"\n"@
}

pub fn shim_script(zshrs: &str, dylib: &str) -> (res: String)
    ensures
        res@ == shim_script_text(zshrs@, dylib@),
{
    let mut out = String::from_str("#!/bin/sh\nexec ");
    let z = shell_quote(zshrs);
    out.append(z.as_str());
    out.append(" -fc 'zmodload -R \"$0\" 2>/dev/null; gf --helper \"$@\"' ");
    let d = shell_quote(dylib);
    out.append(d.as_str());
    out.append(" \"$@\"\n");
    out
}

// ------------------------------------------------------------------
// the `gf` builtin's arguments
// ------------------------------------------------------------------

/// What `gf <args>` asks for.
pub enum Invocation {
    /// The interactive status view (`gf`, `gf menu`, `gf status …`).
    Status,
    /// A helper that fzf calls back: `gf --helper <sub> <args…>`.
    Helper { sub: String, args: Vec<String> },
    /// A command this plugin does not cover; the message to print.
    NotCovered { message: String },
}

/// Which of the three it is: 0 for the status view, 1 for a helper, 2 for a
/// command not covered.
pub open spec fn invocation_case(r: Seq<Seq<char>>) -> int {
    if r.len() == 0 || (r.len() == 1 && r[0] == "menu"@) {
        0
    } else if r.len() >= 2 && r[0] == "--helper"@ {
        1
    } else if r[0] == "status"@ {
        0
    } else {
        2
    }
}

/// The message for a command that is not covered.
pub open spec fn uncovered_text(cmd: Seq<char>) -> Seq<char> {
    "gf: `"@ + cmd + "` not ported (this example covers `status`)\n"@
}

fn strings_from(v: &[String], start: usize) -> (res: Vec<String>)
    requires
        start <= v@.len(),
    ensures
        string_texts(res@) == string_texts(v@).skip(start as int),
{
    let mut res: Vec<String> = Vec::new();
    let mut i = start;
    while i < v.len()
        invariant
            start <= i <= v@.len(),
            res@.len() == i - start,
            forall|j: int| 0 <= j < res@.len() ==> #[trigger] res@[j]@ == v@[start + j]@,
        decreases v@.len() - i,
    {
        let s = owned(v[i].as_str());
        res.push(s);
        i = i + 1;
    }
    assert(string_texts(res@) =~= string_texts(v@).skip(start as int));
    res
}

/// Reads `gf`'s positional arguments (the `gf` builtin's dispatch).
pub fn parse_invocation(rest: &[String]) -> (res: Invocation)
    ensures
        match res {
            Invocation::Status => invocation_case(string_texts(rest@)) == 0,
            Invocation::Helper { sub, args } => {
                &&& invocation_case(string_texts(rest@)) == 1
                &&& sub@ == rest@[1]@
                &&& string_texts(args@) == string_texts(rest@).skip(2)
            },
            Invocation::NotCovered { message } => {
                &&& invocation_case(string_texts(rest@)) == 2
                &&& message@ == uncovered_text(rest@[0]@)
            },
        },
        rest@.len() >= 2 && rest@[0]@ == "--helper"@ ==> match res {
            Invocation::Helper { sub, args } => sub@ == rest@[1]@ && string_texts(args@) == string_texts(
                rest@,
            ).skip(2),
            _ => false,
        },
        rest@.len() == 0 ==> res is Status,
        rest@.len() == 1 && rest@[0]@ == "menu"@ ==> res is Status,
        rest@.len() >= 1 && rest@[0]@ == "status"@ ==> res is Status,
{
    let ghost r = string_texts(rest@);
    proof {
        reveal_strlit("--helper");
        reveal_strlit("status");
        assert("status"@.len() != "--helper"@.len());
    }
    if rest.len() == 0 {
        return Invocation::Status;
    }
    assert(r[0] == rest@[0]@);
    if rest.len() == 1 && same_text(rest[0].as_str(), "menu") {
        return Invocation::Status;
    }
    if rest.len() >= 2 && same_text(rest[0].as_str(), "--helper") {
        let sub = owned(rest[1].as_str());
        let args = strings_from(rest, 2);
        return Invocation::Helper { sub, args };
    }
    if same_text(rest[0].as_str(), "status") {
        return Invocation::Status;
    }
    let mut message = String::from_str("gf: `");
    message.append(rest[0].as_str());
    message.append("` not ported (this example covers `status`)\n");
    Invocation::NotCovered { message }
}

/// `gf --helper <sub> …` is always a helper call, whatever follows the
/// helper's name, nothing included; `gf`, `gf menu` and `gf status …` open
/// the status view; any other first word is a command not covered.
pub proof fn law_invocation_kinds(r: Seq<Seq<char>>)
    ensures
        r.len() >= 2 && r[0] == "--helper"@ ==> invocation_case(r) == 1,
        r.len() == 0 ==> invocation_case(r) == 0,
        r.len() == 1 && r[0] == "menu"@ ==> invocation_case(r) == 0,
        r.len() >= 1 && r[0] == "status"@ ==> invocation_case(r) == 0,
        r.len() >= 1 && r[0] != "--helper"@ && r[0] != "menu"@ && r[0] != "status"@ ==> invocation_case(r)
            == 2,
{
    reveal_strlit("--helper");
    reveal_strlit("status");
    reveal_strlit("menu");
    assert("status"@ != "--helper"@) by {
        assert("status"@.len() != "--helper"@.len());
    }
}

/// The helpers fzf calls back (`gf --helper <sub>`).
pub enum HelperCall {
    MenuContent,
    PreviewContent,
    Diff,
    Add,
    Reset,
    Discard,
    Amend,
    AddPatch,
    Commit,
    Edit,
    Watch,
    PreviewResize,
    /// No helper by that name; the message to print.
    Unknown { message: String },
}

/// The position of `sub` among the helpers' names, in the order of
/// `HelperCall`'s variants; 12 when it is none of them.
pub open spec fn helper_index(sub: Seq<char>) -> int {
    if sub == "status_menu_content"@ {
        0
    } else if sub == "status_preview_content"@ {
        1
    } else if sub == "status_diff"@ {
        2
    } else if sub == "status_add"@ {
        3
    } else if sub == "status_reset"@ {
        4
    } else if sub == "status_discard"@ {
        5
    } else if sub == "status_amend"@ {
        6
    } else if sub == "status_add_patch"@ {
        7
    } else if sub == "status_commit"@ {
        8
    } else if sub == "status_edit"@ {
        9
    } else if sub == "status_watch"@ {
        10
    } else if sub == "preview_resize"@ {
        11
    } else {
        12
    }
}

/// The position of a call among `HelperCall`'s variants.
pub open spec fn call_index(c: HelperCall) -> int {
    match c {
        HelperCall::MenuContent => 0,
        HelperCall::PreviewContent => 1,
        HelperCall::Diff => 2,
        HelperCall::Add => 3,
        HelperCall::Reset => 4,
        HelperCall::Discard => 5,
        HelperCall::Amend => 6,
        HelperCall::AddPatch => 7,
        HelperCall::Commit => 8,
        HelperCall::Edit => 9,
        HelperCall::Watch => 10,
        HelperCall::PreviewResize => 11,
        HelperCall::Unknown { .. } => 12,
    }
}

/// The message for a helper name that is not known.
pub open spec fn unknown_helper_text(sub: Seq<char>) -> Seq<char> {
    "gf helper `"@ + sub + "` not found\n"@
}

/// Which helper `sub` names (the helper dispatch).
pub fn parse_helper(sub: &str) -> (res: HelperCall)
    ensures
        call_index(res) == helper_index(sub@),
        match res {
            HelperCall::Unknown { message } => message@ == unknown_helper_text(sub@),
            _ => true,
        },
{
    if same_text(sub, "status_menu_content") {
        HelperCall::MenuContent
    } else if same_text(sub, "status_preview_content") {
        HelperCall::PreviewContent
    } else if same_text(sub, "status_diff") {
        HelperCall::Diff
    } else if same_text(sub, "status_add") {
        HelperCall::Add
    } else if same_text(sub, "status_reset") {
        HelperCall::Reset
    } else if same_text(sub, "status_discard") {
        HelperCall::Discard
    } else if same_text(sub, "status_amend") {
        HelperCall::Amend
    } else if same_text(sub, "status_add_patch") {
        HelperCall::AddPatch
    } else if same_text(sub, "status_commit") {
        HelperCall::Commit
    } else if same_text(sub, "status_edit") {
        HelperCall::Edit
    } else if same_text(sub, "status_watch") {
        HelperCall::Watch
    } else if same_text(sub, "preview_resize") {
        HelperCall::PreviewResize
    } else {
        let mut message = String::from_str("gf helper `");
        message.append(sub);
        message.append("` not found\n");
        HelperCall::Unknown { message }
    }
}

/// Each helper name that the status view hands fzf reaches its own helper:
/// the dispatch knows all twelve, and no name reaches another's helper.
pub proof fn law_helper_names()
    ensures
        helper_index("status_menu_content"@) == call_index(HelperCall::MenuContent),
        helper_index("status_preview_content"@) == call_index(HelperCall::PreviewContent),
        helper_index("status_diff"@) == call_index(HelperCall::Diff),
        helper_index("status_add"@) == call_index(HelperCall::Add),
        helper_index("status_reset"@) == call_index(HelperCall::Reset),
        helper_index("status_discard"@) == call_index(HelperCall::Discard),
        helper_index("status_amend"@) == call_index(HelperCall::Amend),
        helper_index("status_add_patch"@) == call_index(HelperCall::AddPatch),
        helper_index("status_commit"@) == call_index(HelperCall::Commit),
        helper_index("status_edit"@) == call_index(HelperCall::Edit),
        helper_index("status_watch"@) == call_index(HelperCall::Watch),
        helper_index("preview_resize"@) == call_index(HelperCall::PreviewResize),
{
    reveal_strlit("status_menu_content");
    reveal_strlit("status_preview_content");
    reveal_strlit("status_diff");
    reveal_strlit("status_add");
    reveal_strlit("status_reset");
    reveal_strlit("status_discard");
    reveal_strlit("status_amend");
    reveal_strlit("status_add_patch");
    reveal_strlit("status_commit");
    reveal_strlit("status_edit");
    reveal_strlit("status_watch");
    reveal_strlit("preview_resize");
    assert("status_menu_content"@.len() != "status_preview_content"@.len());
    assert("status_menu_content"@.len() != "status_diff"@.len());
    assert("status_preview_content"@.len() != "status_diff"@.len());
    assert("status_menu_content"@.len() != "status_add"@.len());
    assert("status_preview_content"@.len() != "status_add"@.len());
    assert("status_diff"@.len() != "status_add"@.len());
    assert("status_menu_content"@.len() != "status_reset"@.len());
    assert("status_preview_content"@.len() != "status_reset"@.len());
    assert("status_diff"@.len() != "status_reset"@.len());
    assert("status_add"@.len() != "status_reset"@.len());
    assert("status_menu_content"@.len() != "status_discard"@.len());
    assert("status_preview_content"@.len() != "status_discard"@.len());
    assert("status_diff"@.len() != "status_discard"@.len());
    assert("status_add"@.len() != "status_discard"@.len());
    assert("status_reset"@.len() != "status_discard"@.len());
    assert("status_menu_content"@.len() != "status_amend"@.len());
    assert("status_preview_content"@.len() != "status_amend"@.len());
    assert("status_diff"@.len() != "status_amend"@.len());
    assert("status_add"@.len() != "status_amend"@.len());
    assert("status_reset"@[7] != "status_amend"@[7]);
    assert("status_discard"@.len() != "status_amend"@.len());
    assert("status_menu_content"@.len() != "status_add_patch"@.len());
    assert("status_preview_content"@.len() != "status_add_patch"@.len());
    assert("status_diff"@.len() != "status_add_patch"@.len());
    assert("status_add"@.len() != "status_add_patch"@.len());
    assert("status_reset"@.len() != "status_add_patch"@.len());
    assert("status_discard"@.len() != "status_add_patch"@.len());
    assert("status_amend"@.len() != "status_add_patch"@.len());
    assert("status_menu_content"@.len() != "status_commit"@.len());
    assert("status_preview_content"@.len() != "status_commit"@.len());
    assert("status_diff"@.len() != "status_commit"@.len());
    assert("status_add"@.len() != "status_commit"@.len());
    assert("status_reset"@.len() != "status_commit"@.len());
    assert("status_discard"@.len() != "status_commit"@.len());
    assert("status_amend"@.len() != "status_commit"@.len());
    assert("status_add_patch"@.len() != "status_commit"@.len());
    assert("status_menu_content"@.len() != "status_edit"@.len());
    assert("status_preview_content"@.len() != "status_edit"@.len());
    assert("status_diff"@[7] != "status_edit"@[7]);
    assert("status_add"@.len() != "status_edit"@.len());
    assert("status_reset"@.len() != "status_edit"@.len());
    assert("status_discard"@.len() != "status_edit"@.len());
    assert("status_amend"@.len() != "status_edit"@.len());
    assert("status_add_patch"@.len() != "status_edit"@.len());
    assert("status_commit"@.len() != "status_edit"@.len());
    assert("status_menu_content"@.len() != "status_watch"@.len());
    assert("status_preview_content"@.len() != "status_watch"@.len());
    assert("status_diff"@.len() != "status_watch"@.len());
    assert("status_add"@.len() != "status_watch"@.len());
    assert("status_reset"@[7] != "status_watch"@[7]);
    assert("status_discard"@.len() != "status_watch"@.len());
    assert("status_amend"@[7] != "status_watch"@[7]);
    assert("status_add_patch"@.len() != "status_watch"@.len());
    assert("status_commit"@.len() != "status_watch"@.len());
    assert("status_edit"@.len() != "status_watch"@.len());
    assert("status_menu_content"@.len() != "preview_resize"@.len());
    assert("status_preview_content"@.len() != "preview_resize"@.len());
    assert("status_diff"@.len() != "preview_resize"@.len());
    assert("status_add"@.len() != "preview_resize"@.len());
    assert("status_reset"@.len() != "preview_resize"@.len());
    assert("status_discard"@[0] != "preview_resize"@[0]);
    assert("status_amend"@.len() != "preview_resize"@.len());
    assert("status_add_patch"@.len() != "preview_resize"@.len());
    assert("status_commit"@.len() != "preview_resize"@.len());
    assert("status_edit"@.len() != "preview_resize"@.len());
    assert("status_watch"@.len() != "preview_resize"@.len());
}

} // verus!
