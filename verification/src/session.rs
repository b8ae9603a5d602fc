//! What the user picked in the status view, and the session that runs
//! around it: the checks before fzf opens, the command a pick starts, and
//! the return to the view while changes are left.

use vstd::prelude::*;
use vstd::string::StringExecFns;
use vstd::utf8::encode_utf8;
use crate::helper::string_texts;
use crate::keys::Keys;
use crate::paths::{rename_destination, strip_rename};
use crate::text::{
    byte_boundary, drop_bytes, longer_in_bytes, is_blank, lc, lines, owned, same_text, skip_bytes, text_lines,
    trim, trimmed, unicode_lowercase,
};

verus! {

// ------------------------------------------------------------------
// reading fzf's output
// ------------------------------------------------------------------

/// The lines after the first (fzf prints the `--expect` key first).
pub open spec fn picked_lines(sel: Seq<char>) -> Seq<Seq<char>> {
    let ls = text_lines(sel);
    if ls.len() > 0 {
        ls.drop_first()
    } else {
        seq![]
    }
}

/// The key fzf reports on the first line, trimmed and lowercased.
pub open spec fn pressed_key(sel: Seq<char>) -> Seq<char> {
    let ls = text_lines(sel);
    unicode_lowercase(
        trimmed(
            if ls.len() > 0 {
                ls[0]
            } else {
                seq![]
            },
        ),
    )
}

/// The paths of picked lines: lines longer than the `XY ` status prefix,
/// less that prefix (`cut -c4-`), and less a rename's source.
pub open spec fn picked_paths(ls: Seq<Seq<char>>) -> Seq<Seq<char>>
    decreases ls.len(),
{
    if ls.len() == 0 {
        seq![]
    } else if encode_utf8(ls.last()).len() > 3 {
        picked_paths(ls.drop_last()).push(rename_destination(skip_bytes(ls.last(), 3)))
    } else {
        picked_paths(ls.drop_last())
    }
}

/// Cutting the 3-byte status prefix off each picked line lands on a
/// character boundary (otherwise the cut would panic).
pub open spec fn prefix_cuttable(sel: Seq<char>) -> bool {
    forall|i: int|
        0 <= i < picked_lines(sel).len() ==> encode_utf8(#[trigger] picked_lines(sel)[i]).len() > 3
            ==> byte_boundary(picked_lines(sel)[i], 3)
}

/// What a pick asks for.
pub enum Choice {
    /// Edit this file (the first picked path).
    Edit(String),
    /// The edit key with no path picked: nothing to do.
    Nothing,
    Commit,
    AddPatch(Vec<String>),
    /// Enter: print the picked paths.
    Print(Vec<String>),
}

/// 0 for the edit key, 1 for commit, 2 for add-patch, 3 for anything else.
pub open spec fn choice_case(keys: Keys, sel: Seq<char>) -> int {
    let k = pressed_key(sel);
    if k == unicode_lowercase(keys.edit@) {
        0
    } else if k == unicode_lowercase(keys.commit@) {
        1
    } else if k == unicode_lowercase(keys.add_patch@) {
        2
    } else {
        3
    }
}

/// How a pick is read: the `--expect` key on the first line of fzf's
/// output decides; the other lines are the picked entries.
pub open spec fn choice_matches(keys: Keys, sel: Seq<char>, c: Choice) -> bool {
    let files = picked_paths(picked_lines(sel));
    match c {
        Choice::Edit(f) => choice_case(keys, sel) == 0 && files.len() > 0 && f@ == files[0],
        Choice::Nothing => choice_case(keys, sel) == 0 && files.len() == 0,
        Choice::Commit => choice_case(keys, sel) == 1,
        Choice::AddPatch(fs) => choice_case(keys, sel) == 2 && string_texts(fs@) == files,
        Choice::Print(fs) => choice_case(keys, sel) == 3 && string_texts(fs@) == files,
    }
}

fn picked_files(ls: &Vec<String>) -> (res: Vec<String>)
    requires
        ls@.len() >= 1,
        forall|i: int|
            1 <= i < ls@.len() ==> encode_utf8(#[trigger] ls@[i]@).len() > 3 ==> byte_boundary(
                ls@[i]@,
                3,
            ),
    ensures
        string_texts(res@) == picked_paths(string_texts(ls@).drop_first()),
{
    let ghost all = string_texts(ls@);
    let mut res: Vec<String> = Vec::new();
    let mut i: usize = 1;
    assert(string_texts(res@) =~= picked_paths(all.subrange(1, 1)));
    while i < ls.len()
        invariant
            1 <= i <= ls@.len(),
            all == string_texts(ls@),
            forall|j: int|
                1 <= j < ls@.len() ==> encode_utf8(#[trigger] ls@[j]@).len() > 3 ==> byte_boundary(
                    ls@[j]@,
                    3,
                ),
            string_texts(res@) == picked_paths(all.subrange(1, i as int)),
        decreases ls@.len() - i,
    {
        let line = ls[i].as_str();
        let ghost before = res@;
        assert(all.subrange(1, i + 1).drop_last() == all.subrange(1, i as int));
        assert(all.subrange(1, i + 1).last() == line@);
        if longer_in_bytes(line, 3) {
            let cut = drop_bytes(line, 3);
            let p = strip_rename(cut.as_str());
            res.push(p);
            assert(string_texts(res@) =~= string_texts(before).push(
                rename_destination(skip_bytes(line@, 3)),
            ));
        } else {
            assert(encode_utf8(line@).len() <= 3);
        }
        i = i + 1;
    }
    assert(all.subrange(1, ls@.len() as int) == all.drop_first());
    res
}

/// Reads fzf's output: which key ended it and which entries were picked.
pub fn interpret_selection(keys: &Keys, selection: &str) -> (res: Choice)
    requires
        prefix_cuttable(selection@),
    ensures
        choice_matches(*keys, selection@, res),
{
    let ls = lines(selection);
    let ghost tl = text_lines(selection@);
    assert(string_texts(ls@) =~= tl);
    let files = if ls.len() > 0 {
        assert forall|i: int|
            1 <= i < ls@.len() && encode_utf8(#[trigger] ls@[i]@).len() > 3 implies byte_boundary(
            ls@[i]@,
            3,
        ) by {
            assert(picked_lines(selection@)[i - 1] == ls@[i]@);
        }
        picked_files(&ls)
    } else {
        Vec::new()
    };
    assert(string_texts(files@) == picked_paths(picked_lines(selection@)));
    let head = if ls.len() > 0 {
        trim(ls[0].as_str())
    } else {
        String::new()
    };
    assert(head@ == trimmed(
        if tl.len() > 0 {
            tl[0]
        } else {
            seq![]
        },
    ));
    let key = lc(head.as_str());
    let edit = lc(keys.edit.as_str());
    let commit = lc(keys.commit.as_str());
    let patch = lc(keys.add_patch.as_str());
    if same_text(key.as_str(), edit.as_str()) {
        if files.len() > 0 {
            assert(string_texts(files@)[0] == files@[0]@);
            Choice::Edit(owned(files[0].as_str()))
        } else {
            Choice::Nothing
        }
    } else if same_text(key.as_str(), commit.as_str()) {
        Choice::Commit
    } else if same_text(key.as_str(), patch.as_str()) {
        Choice::AddPatch(files)
    } else {
        Choice::Print(files)
    }
}

// ------------------------------------------------------------------
// the session
// ------------------------------------------------------------------

/// How a session starts: the status view itself, or one of the helpers
/// that return to it (commit, add-patch, edit).
pub enum Entry {
    Status,
    Commit,
    AddPatch(Vec<String>),
    Edit(Vec<String>),
}

/// Where a session stands: what it waits for.
#[derive(Clone, Copy)]
pub enum Phase {
    /// Whether the working directory is in a git repository.
    CheckingRepo,
    /// `git status -s`, before fzf opens.
    CheckingChanges,
    /// fzf's outcome.
    Picking,
    /// The editor to finish.
    Editing,
    /// `git commit` or `git add --patch` to finish.
    Committing,
    /// `git status -s`, after a commit or a patch.
    Rechecking,
    /// The picked paths to be printed.
    Printing,
    /// Done, with the builtin's exit status.
    Finished { code: i32 },
}

/// What the outside world reports back.
pub enum Event {
    InRepo(bool),
    /// What `git status -s` printed.
    ShortStatus(String),
    FzfFailedToStart,
    /// fzf started but its outcome could not be read.
    FzfFailed,
    /// What fzf printed.
    Picked(String),
    /// The command asked for has finished.
    Done,
}

/// What the session asks the outside world to do next.
pub enum Action {
    CheckRepo,
    ReadShortStatus,
    OpenFzf,
    /// Run `$EDITOR` (or `vi`) on these files.
    RunEditor(Vec<String>),
    RunCommit,
    /// Run `git add --patch -- <files>`.
    RunAddPatch(Vec<String>),
    /// Print each path on a line of its own.
    PrintPaths(Vec<String>),
    /// Print `message` (when not empty) and return `code`.
    Exit { message: String, code: i32 },
}

/// An action with its texts as sequences.
pub enum ActionView {
    CheckRepo,
    ReadShortStatus,
    OpenFzf,
    RunEditor(Seq<Seq<char>>),
    RunCommit,
    RunAddPatch(Seq<Seq<char>>),
    PrintPaths(Seq<Seq<char>>),
    Exit(Seq<char>, i32),
}

impl View for Action {
    type V = ActionView;

    open spec fn view(&self) -> ActionView {
        match self {
            Action::CheckRepo => ActionView::CheckRepo,
            Action::ReadShortStatus => ActionView::ReadShortStatus,
            Action::OpenFzf => ActionView::OpenFzf,
            Action::RunEditor(fs) => ActionView::RunEditor(string_texts(fs@)),
            Action::RunCommit => ActionView::RunCommit,
            Action::RunAddPatch(fs) => ActionView::RunAddPatch(string_texts(fs@)),
            Action::PrintPaths(fs) => ActionView::PrintPaths(string_texts(fs@)),
            Action::Exit { message, code } => ActionView::Exit(message@, *code),
        }
    }
}

/// Ending with `code` and no message.
pub open spec fn quiet_exit(code: i32) -> (Phase, ActionView) {
    (Phase::Finished { code }, ActionView::Exit(Seq::<char>::empty(), code))
}

/// Ending with status 1 and a message.
pub open spec fn failure(message: Seq<char>) -> (Phase, ActionView) {
    (Phase::Finished { code: 1 }, ActionView::Exit(message, 1))
}

/// Adding by patch: refused with no file, else `git add --patch`.
pub open spec fn add_patch_next(files: Seq<Seq<char>>) -> (Phase, ActionView) {
    if files.len() == 0 {
        failure("tried to git add --patch with no file(s)\n"@)
    } else {
        (Phase::Committing, ActionView::RunAddPatch(files))
    }
}

/// Editing: refused with no file, else the editor.
pub open spec fn edit_next(files: Seq<Seq<char>>) -> (Phase, ActionView) {
    if files.len() == 0 {
        failure("tried to EDIT in status with no file(s)\n"@)
    } else {
        (Phase::Editing, ActionView::RunEditor(files))
    }
}

/// Where each entry starts.
pub open spec fn begin_next(entry: Entry) -> (Phase, ActionView) {
    match entry {
        Entry::Status => (Phase::CheckingRepo, ActionView::CheckRepo),
        Entry::Commit => (Phase::Committing, ActionView::RunCommit),
        Entry::AddPatch(fs) => add_patch_next(string_texts(fs@)),
        Entry::Edit(fs) => edit_next(string_texts(fs@)),
    }
}

/// What a pick starts.
pub open spec fn picked_next(keys: Keys, sel: Seq<char>) -> (Phase, ActionView) {
    let files = picked_paths(picked_lines(sel));
    let case = choice_case(keys, sel);
    if case == 0 {
        if files.len() > 0 {
            (Phase::Editing, ActionView::RunEditor(seq![files[0]]))
        } else {
            quiet_exit(0)
        }
    } else if case == 1 {
        (Phase::Committing, ActionView::RunCommit)
    } else if case == 2 {
        add_patch_next(files)
    } else {
        (Phase::Printing, ActionView::PrintPaths(files))
    }
}

/// The events each phase waits for.
pub open spec fn fits(phase: Phase, event: Event) -> bool {
    match phase {
        Phase::CheckingRepo => event is InRepo,
        Phase::CheckingChanges => event is ShortStatus,
        Phase::Picking => match event {
            Event::FzfFailedToStart => true,
            Event::FzfFailed => true,
            Event::Picked(sel) => prefix_cuttable(sel@),
            _ => false,
        },
        Phase::Editing => event is Done,
        Phase::Committing => event is Done,
        Phase::Rechecking => event is ShortStatus,
        Phase::Printing => event is Done,
        Phase::Finished { .. } => false,
    }
}

/// One step of the session (the status view, the reading of a pick and the
/// helpers that loop back into the view).
pub open spec fn step_next(keys: Keys, phase: Phase, event: Event) -> (Phase, ActionView) {
    match phase {
        Phase::CheckingRepo => match event {
            Event::InRepo(true) => (Phase::CheckingChanges, ActionView::ReadShortStatus),
            _ => failure("not in git repo\n"@),
        },
        Phase::CheckingChanges => match event {
            Event::ShortStatus(s) => if trimmed(s@).len() == 0 {
                quiet_exit(1)
            } else {
                (Phase::Picking, ActionView::OpenFzf)
            },
            _ => quiet_exit(1),
        },
        Phase::Picking => match event {
            Event::FzfFailedToStart => failure(
                "gf: failed to launch fzf (is it installed, >= 0.71?)\n"@,
            ),
            Event::Picked(sel) => picked_next(keys, sel@),
            _ => quiet_exit(1),
        },
        Phase::Committing => (Phase::Rechecking, ActionView::ReadShortStatus),
        Phase::Rechecking => match event {
            Event::ShortStatus(s) => if trimmed(s@).len() == 0 {
                quiet_exit(0)
            } else {
                (Phase::CheckingRepo, ActionView::CheckRepo)
            },
            _ => quiet_exit(0),
        },
        _ => quiet_exit(0),
    }
}

fn failure_exit(message: &str) -> (r: (Phase, Action))
    ensures
        (r.0, r.1@) == failure(message@),
{
    (Phase::Finished { code: 1 }, Action::Exit { message: String::from_str(message), code: 1 })
}

fn quiet(code: i32) -> (r: (Phase, Action))
    ensures
        (r.0, r.1@) == quiet_exit(code),
{
    (Phase::Finished { code }, Action::Exit { message: String::new(), code })
}

fn add_patch_start(files: Vec<String>) -> (r: (Phase, Action))
    ensures
        (r.0, r.1@) == add_patch_next(string_texts(files@)),
{
    if files.len() == 0 {
        failure_exit("tried to git add --patch with no file(s)\n")
    } else {
        (Phase::Committing, Action::RunAddPatch(files))
    }
}

/// The first step of a session.
pub fn begin(entry: Entry) -> (r: (Phase, Action))
    ensures
        (r.0, r.1@) == begin_next(entry),
{
    match entry {
        Entry::Status => (Phase::CheckingRepo, Action::CheckRepo),
        Entry::Commit => (Phase::Committing, Action::RunCommit),
        Entry::AddPatch(files) => add_patch_start(files),
        Entry::Edit(files) => {
            if files.len() == 0 {
                failure_exit("tried to EDIT in status with no file(s)\n")
            } else {
                (Phase::Editing, Action::RunEditor(files))
            }
        },
    }
}

/// The next step, given what the outside world reported.
pub fn step(keys: &Keys, phase: Phase, event: Event) -> (r: (Phase, Action))
    requires
        fits(phase, event),
    ensures
        (r.0, r.1@) == step_next(*keys, phase, event),
{
    match phase {
        Phase::CheckingRepo => match event {
            Event::InRepo(true) => (Phase::CheckingChanges, Action::ReadShortStatus),
            _ => failure_exit("not in git repo\n"),
        },
        Phase::CheckingChanges => match event {
            Event::ShortStatus(s) => if is_blank(s.as_str()) {
                quiet(1)
            } else {
                (Phase::Picking, Action::OpenFzf)
            },
            _ => quiet(1),
        },
        Phase::Picking => match event {
            Event::FzfFailedToStart => failure_exit(
                "gf: failed to launch fzf (is it installed, >= 0.71?)\n",
            ),
            Event::Picked(sel) => {
                let choice = interpret_selection(keys, sel.as_str());
                match choice {
                    Choice::Edit(f) => {
                        let mut fs: Vec<String> = Vec::new();
                        fs.push(f);
                        assert(string_texts(fs@) =~= seq![fs@[0]@]);
                        (Phase::Editing, Action::RunEditor(fs))
                    },
                    Choice::Nothing => quiet(0),
                    Choice::Commit => (Phase::Committing, Action::RunCommit),
                    Choice::AddPatch(fs) => add_patch_start(fs),
                    Choice::Print(fs) => (Phase::Printing, Action::PrintPaths(fs)),
                }
            },
            _ => quiet(1),
        },
        Phase::Committing => (Phase::Rechecking, Action::ReadShortStatus),
        Phase::Rechecking => match event {
            Event::ShortStatus(s) => if is_blank(s.as_str()) {
                quiet(0)
            } else {
                (Phase::CheckingRepo, Action::CheckRepo)
            },
            _ => quiet(0),
        },
        _ => quiet(0),
    }
}

/// fzf opens only once the repository check has passed and `git status -s`
/// has shown changes.
pub proof fn law_fzf_needs_changes(keys: Keys, phase: Phase, event: Event)
    requires
        fits(phase, event),
        step_next(keys, phase, event).1 is OpenFzf,
    ensures
        phase is CheckingChanges,
        match event {
            Event::ShortStatus(s) => trimmed(s@).len() > 0,
            _ => false,
        },
{
    match phase {
        Phase::Picking => {
            match event {
                Event::Picked(sel) => {
                    let files = picked_paths(picked_lines(sel@));
                    assert(!(add_patch_next(files).1 is OpenFzf));
                },
                _ => {},
            }
        },
        _ => {},
    }
}

/// The changes are looked at only inside a git repository.
pub proof fn law_changes_read_in_repo(keys: Keys, phase: Phase, event: Event)
    requires
        fits(phase, event),
        step_next(keys, phase, event).0 is CheckingChanges,
    ensures
        phase is CheckingRepo,
        event == Event::InRepo(true),
{
    match phase {
        Phase::Picking => {
            match event {
                Event::Picked(sel) => {
                    let files = picked_paths(picked_lines(sel@));
                    assert(!(add_patch_next(files).0 is CheckingChanges));
                },
                _ => {},
            }
        },
        _ => {},
    }
}

/// After a commit or a patch the view comes back exactly when changes are
/// left; otherwise the session ends with status 0.
pub proof fn law_back_to_status_while_dirty(keys: Keys, s: String)
    ensures
        step_next(keys, Phase::Rechecking, Event::ShortStatus(s)) == (if trimmed(s@).len() == 0 {
            quiet_exit(0)
        } else {
            (Phase::CheckingRepo, ActionView::CheckRepo)
        }),
{
}

/// A session ends exactly when it says so: every exit carries the status
/// of the finished phase, 0 or 1, and a finished session takes no event.
pub proof fn law_exit_is_final(keys: Keys, phase: Phase, event: Event)
    requires
        fits(phase, event),
    ensures
        match step_next(keys, phase, event) {
            (Phase::Finished { code }, ActionView::Exit(_, c)) => c == code && (code == 0 || code
                == 1),
            (Phase::Finished { .. }, _) => false,
            (_, ActionView::Exit(_, _)) => false,
            _ => true,
        },
        forall|e: Event| !fits(Phase::Finished { code: 0 }, e) && !fits(Phase::Finished { code: 1 }, e),
{
    match phase {
        Phase::Picking => {
            match event {
                Event::Picked(sel) => {
                    let files = picked_paths(picked_lines(sel@));
                    let _ = add_patch_next(files);
                },
                _ => {},
            }
        },
        _ => {},
    }
}

/// When every picked line is longer than its `XY ` status prefix, each one
/// gives a path, in order: the line less the prefix, less a rename's
/// source.
proof fn lemma_every_line_picked(ls: Seq<Seq<char>>)
    requires
        forall|i: int| 0 <= i < ls.len() ==> encode_utf8(#[trigger] ls[i]).len() > 3,
    ensures
        picked_paths(ls).len() == ls.len(),
        forall|i: int|
            0 <= i < ls.len() ==> #[trigger] picked_paths(ls)[i] == rename_destination(
                skip_bytes(ls[i], 3),
            ),
    decreases ls.len(),
{
    if ls.len() > 0 {
        let init = ls.drop_last();
        assert forall|i: int| 0 <= i < init.len() implies encode_utf8(#[trigger] init[i]).len() > 3 by {
            assert(init[i] == ls[i]);
        }
        lemma_every_line_picked(init);
        assert(encode_utf8(ls[ls.len() - 1]).len() > 3);
        assert forall|i: int| 0 <= i < ls.len() implies #[trigger] picked_paths(ls)[i]
            == rename_destination(skip_bytes(ls[i], 3)) by {
            if i < ls.len() - 1 {
                assert(init[i] == ls[i]);
            }
        }
    }
}

/// A pick carries every picked entry: where each picked line holds a path
/// after its `XY ` status prefix, the add-patch key and Enter carry one
/// path per line, in the order of the lines, each the line less its
/// prefix and less a rename's source, and the edit key edits the first of
/// them.
pub proof fn law_pick_carries_every_line(keys: Keys, sel: Seq<char>, c: Choice)
    requires
        choice_matches(keys, sel, c),
        forall|i: int|
            0 <= i < picked_lines(sel).len() ==> encode_utf8(#[trigger] picked_lines(sel)[i]).len() > 3,
    ensures
        match c {
            Choice::AddPatch(fs) => {
                &&& fs@.len() == picked_lines(sel).len()
                &&& forall|i: int|
                    0 <= i < fs@.len() ==> #[trigger] fs@[i]@ == rename_destination(
                        skip_bytes(picked_lines(sel)[i], 3),
                    )
            },
            Choice::Print(fs) => {
                &&& fs@.len() == picked_lines(sel).len()
                &&& forall|i: int|
                    0 <= i < fs@.len() ==> #[trigger] fs@[i]@ == rename_destination(
                        skip_bytes(picked_lines(sel)[i], 3),
                    )
            },
            Choice::Edit(f) => f@ == rename_destination(skip_bytes(picked_lines(sel)[0], 3)),
            Choice::Nothing => picked_lines(sel).len() == 0,
            Choice::Commit => true,
        },
{
    let ls = picked_lines(sel);
    lemma_every_line_picked(ls);
    match c {
        Choice::AddPatch(fs) => {
            assert forall|i: int| 0 <= i < fs@.len() implies #[trigger] fs@[i]@ == rename_destination(
                skip_bytes(ls[i], 3),
            ) by {
                assert(string_texts(fs@)[i] == fs@[i]@);
            }
        },
        Choice::Print(fs) => {
            assert forall|i: int| 0 <= i < fs@.len() implies #[trigger] fs@[i]@ == rename_destination(
                skip_bytes(ls[i], 3),
            ) by {
                assert(string_texts(fs@)[i] == fs@[i]@);
            }
        },
        _ => {},
    }
}

/// The keys decide only what is done with a pick, not which entries it
/// carries: for the same picked lines, the add-patch key carries the very
/// paths that Enter prints, and the edit key edits the first of them (or
/// does nothing when Enter would print none).
pub proof fn law_keys_carry_the_same_paths(keys: Keys, sel: Seq<char>, other: Seq<char>, c: Choice, d: Choice)
    requires
        picked_lines(sel) == picked_lines(other),
        choice_matches(keys, sel, c),
        choice_matches(keys, other, d),
    ensures
        match (c, d) {
            (Choice::AddPatch(fs), Choice::Print(gs)) => string_texts(fs@) == string_texts(gs@),
            (Choice::Edit(f), Choice::Print(gs)) => gs@.len() > 0 && f@ == gs@[0]@,
            (Choice::Nothing, Choice::Print(gs)) => gs@.len() == 0,
            _ => true,
        },
{
    match (c, d) {
        (Choice::Edit(f), Choice::Print(gs)) => {
            assert(string_texts(gs@)[0] == gs@[0]@);
        },
        _ => {},
    }
}

/// A pick starts the command of what it asks for: the editor on the file
/// to edit, `git commit` for the commit key, `git add --patch` on the
/// picked paths (refused when there are none), the printing of the picked
/// paths for Enter, and a quiet end for the edit key with no path.
pub proof fn law_pick_starts_its_command(keys: Keys, sel: String, c: Choice)
    requires
        prefix_cuttable(sel@),
        choice_matches(keys, sel@, c),
    ensures
        step_next(keys, Phase::Picking, Event::Picked(sel)) == match c {
            Choice::Edit(f) => (Phase::Editing, ActionView::RunEditor(seq![f@])),
            Choice::Nothing => (Phase::Finished { code: 0 }, ActionView::Exit(Seq::<char>::empty(), 0)),
            Choice::Commit => (Phase::Committing, ActionView::RunCommit),
            Choice::AddPatch(fs) => if fs@.len() == 0 {
                (
                    Phase::Finished { code: 1 },
                    ActionView::Exit("tried to git add --patch with no file(s)\n"@, 1),
                )
            } else {
                (Phase::Committing, ActionView::RunAddPatch(string_texts(fs@)))
            },
            Choice::Print(fs) => (Phase::Printing, ActionView::PrintPaths(string_texts(fs@))),
        },
{
}

/// The commit key always starts `git commit`, whatever else was picked.
pub proof fn law_commit_key_commits(keys: Keys, sel: String)
    requires
        prefix_cuttable(sel@),
        choice_case(keys, sel@) == 1,
    ensures
        step_next(keys, Phase::Picking, Event::Picked(sel)) == (Phase::Committing, ActionView::RunCommit),
{
}

/// Each way into a session starts its own command, and each command's end
/// leads on as the helpers do: `git commit` and `git add --patch` re-read
/// `git status -s` (so the view comes back while changes are left), while
/// the editor and the printing of paths end the session with status 0.
pub proof fn law_commands_start_and_finish(keys: Keys, entry: Entry, event: Event)
    ensures
        begin_next(entry) == match entry {
            Entry::Status => (Phase::CheckingRepo, ActionView::CheckRepo),
            Entry::Commit => (Phase::Committing, ActionView::RunCommit),
            Entry::AddPatch(fs) => if fs@.len() == 0 {
                (
                    Phase::Finished { code: 1 },
                    ActionView::Exit("tried to git add --patch with no file(s)\n"@, 1),
                )
            } else {
                (Phase::Committing, ActionView::RunAddPatch(string_texts(fs@)))
            },
            Entry::Edit(fs) => if fs@.len() == 0 {
                (
                    Phase::Finished { code: 1 },
                    ActionView::Exit("tried to EDIT in status with no file(s)\n"@, 1),
                )
            } else {
                (Phase::Editing, ActionView::RunEditor(string_texts(fs@)))
            },
        },
        step_next(keys, Phase::Committing, event) == (Phase::Rechecking, ActionView::ReadShortStatus),
        step_next(keys, Phase::Editing, event) == (
            Phase::Finished { code: 0 },
            ActionView::Exit(Seq::<char>::empty(), 0),
        ),
        step_next(keys, Phase::Printing, event) == (
            Phase::Finished { code: 0 },
            ActionView::Exit(Seq::<char>::empty(), 0),
        ),
{
}

} // verus!
