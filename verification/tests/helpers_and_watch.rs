use git_fuzzy::git::{
    amend_args, checkout_args, discard_plan, editor_program, patch_args, stage_args, unstage_args,
    Discard,
};
use git_fuzzy::helper::{
    parse_helper, parse_invocation, reload_action, shim_dir, shim_path, shim_script, HelperCall,
    Invocation,
};
use git_fuzzy::preview::{
    diff_banner, diff_renderers, helper_preview_resize, preview_cols_env, preview_plan,
    untracked_file, untracked_listing, PreviewPlan,
};
use git_fuzzy::watch::{fzf_post_request, watch_port, watch_step, WatchAction, WatchEvent, WatchState};
use git_fuzzy::{helper_cmd, paths_from_fields, state_hash};

fn strings(v: &[&str]) -> Vec<String> {
    v.iter().map(|s| s.to_string()).collect()
}

#[test]
fn helper_command_lines() {
    assert_eq!(helper_cmd(Some("/s.sh"), "status_add", ""), "/s.sh status_add");
    assert_eq!(helper_cmd(Some("/s.sh"), "status_diff", "{1} {2}"), "/s.sh status_diff {1} {2}");
    assert_eq!(helper_cmd(None, "x", ""), "gf-helper-unavailable x");
    assert_eq!(reload_action(Some("/s")), "reload-sync(/s status_menu_content)");
}

#[test]
fn shim_location_and_script() {
    assert_eq!(shim_dir("/home/u"), "/home/u/.cache/zshrs");
    assert_eq!(shim_path("/home/u"), "/home/u/.cache/zshrs/gf-helper.sh");
    assert_eq!(
        shim_script("/bin/zshrs", "/p/my lib.so"),
        "#!/bin/sh\nexec '/bin/zshrs' -fc 'zmodload -R \"$0\" 2>/dev/null; gf --helper \"$@\"' '/p/my lib.so' \"$@\"\n"
    );
}

#[test]
fn gf_arguments() {
    assert!(matches!(parse_invocation(&[]), Invocation::Status));
    assert!(matches!(parse_invocation(&strings(&["menu"])), Invocation::Status));
    assert!(matches!(parse_invocation(&strings(&["status", "x"])), Invocation::Status));
    match parse_invocation(&strings(&["--helper", "status_add", "a", "b"])) {
        Invocation::Helper { sub, args } => {
            assert_eq!(sub, "status_add");
            assert_eq!(args, vec!["a", "b"]);
        }
        _ => panic!("expected Helper"),
    }
    match parse_invocation(&strings(&["--helper"])) {
        Invocation::NotCovered { message } => {
            assert_eq!(message, "gf: `--helper` not ported (this example covers `status`)\n")
        }
        _ => panic!("expected NotCovered"),
    }
    match parse_invocation(&strings(&["menu", "x"])) {
        Invocation::NotCovered { message } => {
            assert_eq!(message, "gf: `menu` not ported (this example covers `status`)\n")
        }
        _ => panic!("expected NotCovered"),
    }
}

#[test]
fn helper_names() {
    assert!(matches!(parse_helper("status_menu_content"), HelperCall::MenuContent));
    assert!(matches!(parse_helper("status_preview_content"), HelperCall::PreviewContent));
    assert!(matches!(parse_helper("status_diff"), HelperCall::Diff));
    assert!(matches!(parse_helper("status_add"), HelperCall::Add));
    assert!(matches!(parse_helper("status_reset"), HelperCall::Reset));
    assert!(matches!(parse_helper("status_discard"), HelperCall::Discard));
    assert!(matches!(parse_helper("status_amend"), HelperCall::Amend));
    assert!(matches!(parse_helper("status_add_patch"), HelperCall::AddPatch));
    assert!(matches!(parse_helper("status_commit"), HelperCall::Commit));
    assert!(matches!(parse_helper("status_edit"), HelperCall::Edit));
    assert!(matches!(parse_helper("status_watch"), HelperCall::Watch));
    assert!(matches!(parse_helper("preview_resize"), HelperCall::PreviewResize));
    match parse_helper("nope") {
        HelperCall::Unknown { message } => assert_eq!(message, "gf helper `nope` not found\n"),
        _ => panic!("expected Unknown"),
    }
}

#[test]
fn field_paths() {
    assert_eq!(paths_from_fields(&["a", "->", "b", "c"]), vec!["b", "c"]);
    assert_eq!(paths_from_fields(&["", "x"]), vec!["x"]);
    assert_eq!(paths_from_fields(&["a", "->"]), Vec::<String>::new());
    assert_eq!(paths_from_fields(&["->", "->"]), vec!["->"]);
    assert_eq!(paths_from_fields(&[]), Vec::<String>::new());
}

#[test]
fn git_command_lines() {
    let paths = strings(&["a", "b c"]);
    assert_eq!(stage_args(&paths), vec!["add", "--", "a", "b c"]);
    assert_eq!(unstage_args(&paths), vec!["reset", "--", "a", "b c"]);
    assert_eq!(checkout_args(&paths), vec!["checkout", "HEAD", "--", "a", "b c"]);
    assert_eq!(patch_args(&paths), vec!["add", "--patch", "--", "a", "b c"]);
    assert_eq!(amend_args(), vec!["commit", "--amend", "--reuse-message=HEAD"]);
    assert_eq!(editor_program(None), "vi");
    assert_eq!(editor_program(Some("nvim")), "nvim");
}

#[test]
fn preview_plans() {
    assert!(matches!(preview_plan(&["M"], true, false), PreviewPlan::Nothing));
    assert!(matches!(preview_plan(&[], true, false), PreviewPlan::Nothing));
    match preview_plan(&["??", "new.txt", ""], true, false) {
        PreviewPlan::Untracked { file } => assert_eq!(file, "new.txt"),
        _ => panic!("expected Untracked"),
    }
    match preview_plan(&["M", "a.rs", ""], true, false) {
        PreviewPlan::Diff { file, git_args } => {
            assert_eq!(file, "a.rs");
            assert_eq!(git_args, vec!["-c", "color.ui=always", "diff", "HEAD", "-M", "--", "a.rs"]);
        }
        _ => panic!("expected Diff"),
    }
    match preview_plan(&["R", "old", "new"], false, true) {
        PreviewPlan::Diff { git_args, .. } => assert_eq!(
            git_args,
            vec!["--no-pager", "-c", "color.ui=always", "diff", "HEAD", "-M", "--", "old", "new"]
        ),
        _ => panic!("expected Diff"),
    }
    match preview_plan(&["R", "old", "new"], true, false) {
        PreviewPlan::Diff { git_args, .. } => assert_eq!(git_args.len(), 7),
        _ => panic!("expected Diff"),
    }
    let b = diff_banner("a.rs");
    assert!(b.contains("git diff HEAD -M -- a.rs"));
}

#[test]
fn untracked_views() {
    let (banner, tool) = untracked_listing("dir", true);
    assert_eq!(tool.program, "eza");
    assert_eq!(tool.args, vec!["-l", "--color=always", "dir"]);
    assert!(banner.contains("eza -l"));
    let (_, tool) = untracked_listing("dir", false);
    assert_eq!(tool.program, "ls");
    let (banner, tool) = untracked_file("f", true);
    assert_eq!(tool.program, "bat");
    assert_eq!(tool.args, vec!["--color=always", "f"]);
    assert!(banner.contains("bat"));
    let (_, tool) = untracked_file("f", false);
    assert_eq!(tool.program, "cat");
    assert_eq!(tool.args, vec!["f"]);
}

#[test]
fn renderers_in_order() {
    let r = diff_renderers(Some(80));
    assert_eq!(r[0].program, "delta");
    assert_eq!(r[0].args, vec!["--paging=never", "--width", "80"]);
    assert_eq!(r[1].program, "diff-so-fancy");
    assert!(r[1].args.is_empty());
    assert_eq!(diff_renderers(None)[0].args, vec!["--paging=never"]);
    assert_eq!(diff_renderers(Some(-3))[0].args, vec!["--paging=never", "--width", "-3"]);
    assert_eq!(preview_cols_env(Some("120")), Some(120));
    assert_eq!(preview_cols_env(Some("wide")), None);
    assert_eq!(preview_cols_env(None), None);
}

#[test]
fn preview_resizing() {
    let r = helper_preview_resize(&["increase"], Some("40"), Some("100"));
    assert_eq!(r.as_deref(), Some("change-preview-window:45\n"));
    let r = helper_preview_resize(&["decrease"], Some("45"), Some("100"));
    assert_eq!(r.as_deref(), Some("change-preview-window:40\n"));
    let r = helper_preview_resize(&["increase"], Some("98"), Some("100"));
    assert_eq!(r.as_deref(), Some("change-preview-window:100\n"));
    let r = helper_preview_resize(&["decrease"], Some("3"), Some("100"));
    assert_eq!(r.as_deref(), Some("change-preview-window:1\n"));
    assert_eq!(helper_preview_resize(&["sideways"], Some("3"), Some("100")), None);
    assert_eq!(helper_preview_resize(&[], Some("3"), Some("100")), None);
    assert_eq!(helper_preview_resize(&["increase"], None, Some("100")), None);
    assert_eq!(helper_preview_resize(&["increase"], Some("3"), Some("x")), None);
    assert_eq!(helper_preview_resize(&["increase"], Some("-3"), Some("100")), None);
}

#[test]
fn change_token_is_fnv1a() {
    assert_eq!(state_hash("", ""), 0xcbf29ce484222325);
    assert_eq!(state_hash("a", ""), 0xaf63dc4c8601ec8c);
    assert_eq!(state_hash("a", ""), state_hash("", "a"));
    assert_eq!(state_hash(" M x\n", "abc\n"), state_hash(" M x\nabc", "\n"));
    assert_ne!(state_hash(" M x\n", ""), state_hash(" M y\n", ""));
}

#[test]
fn watch_setup() {
    assert_eq!(watch_port(&["8080"], None), Some(8080));
    assert_eq!(watch_port(&["8080"], Some("1")), Some(8080));
    assert_eq!(watch_port(&["8080"], Some("0")), None);
    assert_eq!(watch_port(&["http"], None), None);
    assert_eq!(watch_port(&["70000"], None), None);
    assert_eq!(watch_port(&[], None), None);
}

#[test]
fn watcher_posts_on_change_and_stops_when_fzf_is_gone() {
    let s = WatchState::Waiting { last: 1 };
    let (s, a) = watch_step(s, WatchEvent::Snapshot(1));
    assert!(matches!(a, WatchAction::Sleep));
    let (s, a) = watch_step(s, WatchEvent::Snapshot(2));
    assert!(matches!(a, WatchAction::Post));
    assert!(matches!(s, WatchState::Posting { last: 2 }));
    let (s2, a) = watch_step(s, WatchEvent::Posted(true));
    assert!(matches!(a, WatchAction::Sleep));
    assert!(matches!(s2, WatchState::Waiting { last: 2 }));
    let (s3, a) = watch_step(s, WatchEvent::Posted(false));
    assert!(matches!(a, WatchAction::Stop));
    assert!(matches!(s3, WatchState::Stopped));
}

#[test]
fn post_request_counts_bytes() {
    assert_eq!(
        fzf_post_request("reload"),
        "POST / HTTP/1.1\r\nHost: localhost\r\nContent-Length: 6\r\nConnection: close\r\n\r\nreload"
    );
    let r = fzf_post_request("é");
    assert!(r.contains("Content-Length: 2\r\n"));
    assert!(r.ends_with("\r\n\r\né"));
}

#[test]
fn discarding_picks_by_tracking() {
    let paths = strings(&["a", "b"]);
    match discard_plan(&paths, true) {
        Some(Discard::Checkout(args)) => assert_eq!(args, vec!["checkout", "HEAD", "--", "a", "b"]),
        _ => panic!("expected Checkout"),
    }
    match discard_plan(&paths, false) {
        Some(Discard::Remove(ps)) => assert_eq!(ps, vec!["a", "b"]),
        _ => panic!("expected Remove"),
    }
    assert!(discard_plan(&[], true).is_none());
}

use git_fuzzy::preview::{render_step, Rendering};

#[test]
fn renderers_fall_back_in_order() {
    assert!(matches!(render_step(0, 2, None, "raw"), Rendering::Try(1)));
    match render_step(1, 2, None, "raw") {
        Rendering::Show(s) => assert_eq!(s, "raw"),
        _ => panic!("expected Show"),
    }
    match render_step(0, 2, Some("pretty".to_string()), "raw") {
        Rendering::Show(s) => assert_eq!(s, "pretty"),
        _ => panic!("expected Show"),
    }
}

#[test]
fn field_paths_agree_with_the_sed_reading() {
    // "a -> b c" less every `[^ ]* -> ` is "b c"
    assert_eq!(paths_from_fields(&["a", "->", "b", "c"]), vec!["b", "c"]);
    // "x -> y -> z w" becomes "z w"
    assert_eq!(paths_from_fields(&["x", "->", "y", "->", "z", "w"]), vec!["z", "w"]);
    // "p q->r" has no ` -> `
    assert_eq!(paths_from_fields(&["p", "q->r"]), vec!["p", "q->r"]);
}

/// Drives the watcher as the plugin does, on given snapshots and replies;
/// gives the snapshot positions after which it posted, and whether it
/// stopped.
fn run_watcher(h0: u64, snaps: &[u64], replies: &[bool]) -> (Vec<usize>, bool) {
    let mut state = WatchState::Waiting { last: h0 };
    let mut action = WatchAction::Sleep;
    let (mut i, mut j) = (0usize, 0usize);
    let mut posted = Vec::new();
    loop {
        let event = match action {
            WatchAction::Sleep => {
                if i == snaps.len() {
                    return (posted, false);
                }
                i += 1;
                WatchEvent::Snapshot(snaps[i - 1])
            }
            WatchAction::Post => {
                posted.push(i - 1);
                if j == replies.len() {
                    return (posted, false);
                }
                j += 1;
                WatchEvent::Posted(replies[j - 1])
            }
            WatchAction::Stop => return (posted, true),
        };
        (state, action) = watch_step(state, event);
    }
}

#[test]
fn watcher_run_posts_after_each_change_until_refused() {
    assert_eq!(run_watcher(1, &[1, 2, 2, 1, 5, 5], &[true, true, true]), (vec![1, 3, 4], false));
    assert_eq!(run_watcher(1, &[1, 2, 2, 1, 5, 5], &[true, false, true]), (vec![1, 3], true));
    assert_eq!(run_watcher(7, &[7, 7, 7], &[false]), (vec![], false));
}
