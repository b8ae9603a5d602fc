use git_fuzzy::ansi::{command_banner, GRAY, GREEN, NORMAL, RED, WHITE, BOLD, CYAN};
use git_fuzzy::keys::{setting_or_default, Keys};
use git_fuzzy::session::{begin, interpret_selection, step, Action, Choice, Entry, Event, Phase};
use git_fuzzy::status::{status_expect, status_fzf_args, status_header};
use git_fuzzy::status_menu_content;

fn default_keys() -> Keys {
    Keys {
        amend: "Alt-M".to_string(),
        add: "Alt-S".to_string(),
        add_patch: "Alt-P".to_string(),
        edit: "Alt-E".to_string(),
        commit: "Alt-C".to_string(),
        reset: "Alt-R".to_string(),
        discard: "Alt-U".to_string(),
        inspect: "Alt-I".to_string(),
        select_all: "Alt-A".to_string(),
        select_none: "Alt-D".to_string(),
        wrap: "Alt-W".to_string(),
        size_inc: "Alt-=".to_string(),
        size_dec: "Alt--".to_string(),
    }
}

#[test]
fn settings_fall_back_to_defaults() {
    assert_eq!(setting_or_default(None, "Alt-M"), "Alt-M");
    assert_eq!(setting_or_default(Some(String::new()), "Alt-M"), "Alt-M");
    assert_eq!(setting_or_default(Some("Ctrl-K".to_string()), "Alt-M"), "Ctrl-K");
}

#[test]
fn banner_and_menu_content() {
    let b = command_banner("ls -l");
    assert_eq!(b, format!("{GRAY}{BOLD}$ {CYAN}{BOLD}ls -l{NORMAL}\n\n"));
    assert_eq!(
        status_menu_content(" M a.rs\n"),
        format!("{GRAY}{BOLD}$ {CYAN}{BOLD}git status --short{NORMAL}\n\n M a.rs\n")
    );
}

#[test]
fn header_lists_the_bindings() {
    let keys = default_keys();
    let expected = format!(
        "Type to filter. {WHITE}Enter{NORMAL} to {GREEN}ACCEPT{NORMAL}\n\n\
         {GRAY}-- (*) editor: {NORMAL}nvim\n\
         {GREEN}amend{NORMAL} {WHITE}Alt-M{NORMAL}  {GREEN}stage -p{NORMAL} {WHITE}Alt-P{NORMAL}  * {GREEN}edit{NORMAL} {WHITE}Alt-E{NORMAL}\n\
         {GREEN}all{NORMAL} {WHITE}Alt-A{NORMAL}  {GREEN}stage{NORMAL} {WHITE}Alt-S{NORMAL}  {RED}discard{NORMAL} {WHITE}Alt-U{NORMAL}\n\
         {GREEN}none{NORMAL} {WHITE}Alt-D{NORMAL}  {GREEN}reset{NORMAL} {WHITE}Alt-R{NORMAL}  * {RED}commit{NORMAL} {WHITE}Alt-C{NORMAL}"
    );
    assert_eq!(status_header(&keys, "nvim"), expected);
}

#[test]
fn expect_keys_are_lowercase() {
    assert_eq!(status_expect(&default_keys()), "alt-e,alt-c,alt-p");
}

#[test]
fn fzf_command_line() {
    let keys = default_keys();
    let args = status_fzf_args(&keys, Some("/h/gf.sh"), 200, 50, "vim");
    assert_eq!(args.len(), 26);
    assert_eq!(args[0], "--ansi");
    assert_eq!(args[8], "--id-nth=2..");
    assert_eq!(args[9], "--preview-window=right:54%:nohidden");
    assert_eq!(args[10], "--header");
    assert_eq!(args[11], status_header(&keys, "vim"));
    assert_eq!(args[13], "alt-e,alt-c,alt-p");
    assert_eq!(args[14], "--preview=/h/gf.sh status_preview_content {1} {2} {4}");
    assert_eq!(args[15], "--bind=alt-w:toggle-preview-wrap");
    assert_eq!(args[16], "--bind=alt-a:select-all");
    assert_eq!(args[17], "--bind=alt-d:deselect-all");
    assert_eq!(args[18], "--bind=alt-=:transform(/h/gf.sh preview_resize increase)");
    assert_eq!(args[19], "--bind=alt--:transform(/h/gf.sh preview_resize decrease)");
    assert_eq!(
        args[20],
        "--bind=start:execute-silent(/h/gf.sh status_watch $FZF_PORT > /dev/null 2>&1 &)"
    );
    assert_eq!(args[21], "--bind=alt-i:execute(/h/gf.sh status_diff {1} {2} {4})");
    assert_eq!(
        args[22],
        "--bind=alt-m:execute-silent(/h/gf.sh status_amend {+2..})+reload-sync(/h/gf.sh status_menu_content)+clear-multi+down"
    );
    assert_eq!(
        args[23],
        "--bind=alt-s:execute-silent(/h/gf.sh status_add {+2..})+reload-sync(/h/gf.sh status_menu_content)+clear-multi+down"
    );
    assert_eq!(
        args[24],
        "--bind=alt-r:execute-silent(/h/gf.sh status_reset {+2..})+reload-sync(/h/gf.sh status_menu_content)+clear-multi+down"
    );
    assert_eq!(
        args[25],
        "--bind=alt-u:execute-silent(/h/gf.sh status_discard {+2..})+reload-sync(/h/gf.sh status_menu_content)"
    );
}

#[test]
fn small_screens_get_no_header() {
    let keys = default_keys();
    let args = status_fzf_args(&keys, None, 200, 30, "vim");
    assert_eq!(args[11], "");
    assert_eq!(args[14], "--preview=gf-helper-unavailable status_preview_content {1} {2} {4}");
}

#[test]
fn enter_prints_picked_paths() {
    let keys = default_keys();
    match interpret_selection(&keys, "\n M src/a.rs\nR  old -> new\n?? x\n") {
        Choice::Print(files) => assert_eq!(files, vec!["src/a.rs", "new", "x"]),
        _ => panic!("expected Print"),
    }
}

#[test]
fn expect_key_picks_the_command() {
    let keys = default_keys();
    match interpret_selection(&keys, "  alt-e \n M a\n M b\n") {
        Choice::Edit(f) => assert_eq!(f, "a"),
        _ => panic!("expected Edit"),
    }
    assert!(matches!(interpret_selection(&keys, "alt-e\n"), Choice::Nothing));
    assert!(matches!(interpret_selection(&keys, "ALT-C\n M a\n"), Choice::Commit));
    match interpret_selection(&keys, "alt-p\n M a\n??\n") {
        Choice::AddPatch(files) => assert_eq!(files, vec!["a"]),
        _ => panic!("expected AddPatch"),
    }
    match interpret_selection(&keys, "") {
        Choice::Print(files) => assert!(files.is_empty()),
        _ => panic!("expected Print"),
    }
}

#[test]
fn session_checks_before_opening_fzf() {
    let keys = default_keys();
    let (phase, action) = begin(Entry::Status);
    assert!(matches!(action, Action::CheckRepo));
    let (_, action) = step(&keys, phase, Event::InRepo(false));
    match action {
        Action::Exit { message, code } => {
            assert_eq!(message, "not in git repo\n");
            assert_eq!(code, 1);
        }
        _ => panic!("expected Exit"),
    }
    let (phase, action) = step(&keys, phase, Event::InRepo(true));
    assert!(matches!(action, Action::ReadShortStatus));
    let (_, action) = step(&keys, phase, Event::ShortStatus(" \n".to_string()));
    assert!(matches!(action, Action::Exit { code: 1, .. }));
    let (phase, action) = step(&keys, phase, Event::ShortStatus(" M a\n".to_string()));
    assert!(matches!(action, Action::OpenFzf));
    let (_, action) = step(&keys, phase, Event::FzfFailedToStart);
    match action {
        Action::Exit { message, code } => {
            assert_eq!(message, "gf: failed to launch fzf (is it installed, >= 0.71?)\n");
            assert_eq!(code, 1);
        }
        _ => panic!("expected Exit"),
    }
    let (_, action) = step(&keys, phase, Event::FzfFailed);
    assert!(matches!(action, Action::Exit { code: 1, .. }));
}

#[test]
fn commit_returns_to_the_view_while_dirty() {
    let keys = default_keys();
    let (phase, action) = begin(Entry::Commit);
    assert!(matches!(action, Action::RunCommit));
    let (phase, action) = step(&keys, phase, Event::Done);
    assert!(matches!(action, Action::ReadShortStatus));
    let (_, action) = step(&keys, phase, Event::ShortStatus("?? left\n".to_string()));
    assert!(matches!(action, Action::CheckRepo));
    let (done, action) = step(&keys, phase, Event::ShortStatus(String::new()));
    assert!(matches!(action, Action::Exit { code: 0, .. }));
    assert!(matches!(done, Phase::Finished { code: 0 }));
}

#[test]
fn picks_start_their_commands() {
    let keys = default_keys();
    let picking = Phase::Picking;
    let (phase, action) = step(&keys, picking, Event::Picked("alt-e\n M f\n".to_string()));
    match action {
        Action::RunEditor(files) => assert_eq!(files, vec!["f"]),
        _ => panic!("expected RunEditor"),
    }
    let (_, action) = step(&keys, phase, Event::Done);
    assert!(matches!(action, Action::Exit { code: 0, .. }));
    let (_, action) = step(&keys, picking, Event::Picked("alt-p\n".to_string()));
    match action {
        Action::Exit { message, code } => {
            assert_eq!(message, "tried to git add --patch with no file(s)\n");
            assert_eq!(code, 1);
        }
        _ => panic!("expected Exit"),
    }
    let (phase, action) = step(&keys, picking, Event::Picked("\n M f\n".to_string()));
    match action {
        Action::PrintPaths(files) => assert_eq!(files, vec!["f"]),
        _ => panic!("expected PrintPaths"),
    }
    let (_, action) = step(&keys, phase, Event::Done);
    assert!(matches!(action, Action::Exit { code: 0, .. }));
}

#[test]
fn helpers_without_files_are_refused() {
    match begin(Entry::Edit(Vec::new())).1 {
        Action::Exit { message, code } => {
            assert_eq!(message, "tried to EDIT in status with no file(s)\n");
            assert_eq!(code, 1);
        }
        _ => panic!("expected Exit"),
    }
    match begin(Entry::AddPatch(vec!["a".to_string()])).1 {
        Action::RunAddPatch(files) => assert_eq!(files, vec!["a"]),
        _ => panic!("expected RunAddPatch"),
    }
    match begin(Entry::Edit(vec!["a".to_string(), "b".to_string()])).1 {
        Action::RunEditor(files) => assert_eq!(files, vec!["a", "b"]),
        _ => panic!("expected RunEditor"),
    }
}

use git_fuzzy::status::status_fzf_env;

fn shell(name: &str) -> Option<String> {
    match name {
        "GIT_FUZZY_STATUS_AMEND_KEY" => Some("Ctrl-A".to_string()),
        "GIT_FUZZY_STATUS_ADD_KEY" => Some(String::new()),
        "GIT_FUZZY_PREVIEW_SIZE_DECREASE_KEY" => Some("F2".to_string()),
        "GIT_FUZZY_INSPECT_KEY" => Some("Ctrl-I".to_string()),
        _ => None,
    }
}

#[test]
fn bindings_from_the_shell() {
    let keys = Keys::new(&shell);
    assert_eq!(keys.amend, "Ctrl-A");
    assert_eq!(keys.add, "Alt-S");
    assert_eq!(keys.add_patch, "Alt-P");
    assert_eq!(keys.edit, "Alt-E");
    assert_eq!(keys.commit, "Alt-C");
    assert_eq!(keys.reset, "Alt-R");
    assert_eq!(keys.discard, "Alt-U");
    assert_eq!(keys.inspect, "Ctrl-I");
    assert_eq!(keys.select_all, "Alt-A");
    assert_eq!(keys.select_none, "Alt-D");
    assert_eq!(keys.wrap, "Alt-W");
    assert_eq!(keys.size_inc, "Alt-=");
    assert_eq!(keys.size_dec, "F2");
}

#[test]
fn an_unset_shell_gives_the_defaults() {
    let keys = Keys::new(&|_name: &str| None);
    assert_eq!(status_expect(&keys), "alt-e,alt-c,alt-p");
    assert_eq!(keys.amend, "Alt-M");
    assert_eq!(keys.size_dec, "Alt--");
}

#[test]
fn fzf_runs_without_git_locks() {
    let (name, value) = status_fzf_env();
    assert_eq!(name, "GIT_OPTIONAL_LOCKS");
    assert_eq!(value, "0");
}
