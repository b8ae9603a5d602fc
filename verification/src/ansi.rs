//! The terminal colors of the plugin's palette, and the `$ <command>` banner
//! printed above command output.

use vstd::prelude::*;
use vstd::string::StringExecFns;

verus! {

pub const GREEN: &'static str = "\x1b[32m";

pub const RED: &'static str = "\x1b[31m";

pub const CYAN: &'static str = "\x1b[36m";

pub const GRAY: &'static str = "\x1b[90m";

pub const WHITE: &'static str = "\x1b[37m";

pub const NORMAL: &'static str = "\x1b[0m";

pub const BOLD: &'static str = "\x1b[1m";

/// `$ <cmd>` in gray and cyan, then a blank line.
pub open spec fn banner(cmd: Seq<char>) -> Seq<char> {
    GRAY@ + BOLD@ + "$ "@ + CYAN@ + BOLD@ + cmd + NORMAL@ + "\n\n"@
}

/// The banner printed above the output of `cmd`.
pub fn command_banner(cmd: &str) -> (res: String)
    ensures
        res@ == banner(cmd@),
{
    let mut out = String::from_str(GRAY);
    out.append(BOLD);
    out.append("$ ");
    out.append(CYAN);
    out.append(BOLD);
    out.append(cmd);
    out.append(NORMAL);
    out.append("\n\n");
    out
}

/// The status list fzf shows: the `git status --short` banner, then
/// the list itself (uncolored, so that fzf's `{1}`/`{2}`/`{4}` fields stay
/// clean).
pub fn status_menu_content(list: &str) -> (res: String)
    ensures
        res@ == banner("git status --short"@) + list@,
{
    let mut out = command_banner("git status --short");
    out.append(list);
    out
}

} // verus!
