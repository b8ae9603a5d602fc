//! The live-reload watcher: a change token over `git status` and HEAD, the
//! decision to tell fzf to reload, and the HTTP request fzf's `--listen`
//! port takes.

use vstd::prelude::*;
use vstd::string::StringExecFns;
use vstd::utf8::encode_utf8;
use crate::paths::texts_of;
use crate::preview::field;
use crate::text::{byte_count, decimal, parse_u16, parsed_u16, push_decimal, same_text};

verus! {

pub const FNV_OFFSET: u64 = 0xcbf29ce484222325;

pub const FNV_PRIME: u64 = 0x100000001b3;

/// One FNV-1a step: xor in the byte, multiply by the prime modulo 2^64.
pub open spec fn fnv_step(h: u64, b: u8) -> u64 {
    (((h ^ (b as u64)) as nat * FNV_PRIME as nat) % 0x1_0000_0000_0000_0000) as u64
}

/// FNV-1a of `bytes`, starting from `h`.
pub open spec fn fnv_from(h: u64, bytes: Seq<u8>) -> u64
    decreases bytes.len(),
{
    if bytes.len() == 0 {
        h
    } else {
        fnv_step(fnv_from(h, bytes.drop_last()), bytes.last())
    }
}

/// The 64-bit FNV-1a hash of `bytes`.
pub open spec fn fnv1a(bytes: Seq<u8>) -> u64 {
    fnv_from(FNV_OFFSET, bytes)
}

/// Cheap change token: FNV-1a of the bytes of `git status --porcelain`'s
/// output followed by `git rev-parse HEAD`'s.
pub fn state_hash(porcelain: &str, head: &str) -> (h: u64)
    ensures
        h == fnv1a(encode_utf8(porcelain@ + head@)),
{
    proof {
        crate::text::lemma_encode_utf8_concat(porcelain@, head@);
    }
    let a = porcelain.as_bytes();
    let b = head.as_bytes();
    let ghost all = a@ + b@;
    let mut h: u64 = FNV_OFFSET;
    let mut i: usize = 0;
    while i < a.len()
        invariant
            i <= a@.len(),
            all == a@ + b@,
            h == fnv_from(FNV_OFFSET, all.take(i as int)),
        decreases a@.len() - i,
    {
        assert(all.take(i + 1).drop_last() == all.take(i as int));
        assert(all.take(i + 1).last() == a@[i as int]);
        h = (h ^ a[i] as u64).wrapping_mul(FNV_PRIME);
        i = i + 1;
    }
    let mut j: usize = 0;
    while j < b.len()
        invariant
            j <= b@.len(),
            all == a@ + b@,
            h == fnv_from(FNV_OFFSET, all.take(a@.len() + j)),
        decreases b@.len() - j,
    {
        assert(all.take(a@.len() + j + 1).drop_last() == all.take(a@.len() + j));
        assert(all.take(a@.len() + j + 1).last() == b@[j as int]);
        h = (h ^ b[j] as u64).wrapping_mul(FNV_PRIME);
        j = j + 1;
    }
    assert(all.take((a@.len() + b@.len()) as int) == all);
    h
}

// ------------------------------------------------------------------
// the watcher
// ------------------------------------------------------------------

/// `status_watch <port>`: the port to tell, unless the first argument
/// is not a port or `$GF_STATUS_WATCH` is `0`.
pub fn watch_port(args: &[&str], watch_setting: Option<&str>) -> (res: Option<u16>)
    ensures
        res == (match parsed_u16(field(texts_of(args@), 0)) {
            Some(p) => match watch_setting {
                Some(v) => if v@ == "0"@ {
                    None
                } else {
                    Some(p)
                },
                None => Some(p),
            },
            None => None,
        }),
{
    if args.len() == 0 {
        let ghost e = Seq::<char>::empty();
        assert(parsed_u16(e) is None);
        return None;
    }
    let port = parse_u16(args[0]);
    match port {
        None => None,
        Some(p) => match watch_setting {
            Some(v) => if same_text(v, "0") {
                None
            } else {
                Some(p)
            },
            None => Some(p),
        },
    }
}

/// Where the watcher stands.
#[derive(Clone, Copy)]
pub enum WatchState {
    /// Polling; `last` is the change token fzf's list was made from.
    Waiting { last: u64 },
    /// A reload was asked of fzf for the state `last`.
    Posting { last: u64 },
    /// fzf is gone.
    Stopped,
}

/// What the watcher learns.
pub enum WatchEvent {
    /// The change token after a half-second pause.
    Snapshot(u64),
    /// Whether the reload reached fzf.
    Posted(bool),
}

/// What the watcher asks for.
#[derive(Clone, Copy)]
pub enum WatchAction {
    /// Pause half a second, then take a new snapshot.
    Sleep,
    /// Send fzf the reload action.
    Post,
    /// End the watcher.
    Stop,
}

/// The events each state waits for.
pub open spec fn watch_fits(state: WatchState, event: WatchEvent) -> bool {
    match state {
        WatchState::Waiting { .. } => event is Snapshot,
        WatchState::Posting { .. } => event is Posted,
        WatchState::Stopped => false,
    }
}

/// One step of the watcher: a changed token asks for a reload; a reload
/// that does not reach fzf ends the watcher.
pub open spec fn watch_next(state: WatchState, event: WatchEvent) -> (WatchState, WatchAction) {
    match (state, event) {
        (WatchState::Waiting { last }, WatchEvent::Snapshot(now)) => if now == last {
            (WatchState::Waiting { last }, WatchAction::Sleep)
        } else {
            (WatchState::Posting { last: now }, WatchAction::Post)
        },
        (WatchState::Posting { last }, WatchEvent::Posted(true)) => (
            WatchState::Waiting { last },
            WatchAction::Sleep,
        ),
        _ => (WatchState::Stopped, WatchAction::Stop),
    }
}

pub fn watch_step(state: WatchState, event: WatchEvent) -> (r: (WatchState, WatchAction))
    requires
        watch_fits(state, event),
    ensures
        r == watch_next(state, event),
{
    match (state, event) {
        (WatchState::Waiting { last }, WatchEvent::Snapshot(now)) => if now == last {
            (WatchState::Waiting { last }, WatchAction::Sleep)
        } else {
            (WatchState::Posting { last: now }, WatchAction::Post)
        },
        (WatchState::Posting { last }, WatchEvent::Posted(true)) => (
            WatchState::Waiting { last },
            WatchAction::Sleep,
        ),
        _ => (WatchState::Stopped, WatchAction::Stop),
    }
}

/// fzf is told to reload exactly when the change token differs from the one
/// its list was made from, and the watcher ends exactly when a reload does
/// not reach fzf.
pub proof fn law_watch_posts_on_change(last: u64, now: u64, reached: bool)
    ensures
        (watch_next(WatchState::Waiting { last }, WatchEvent::Snapshot(now)).1 is Post) <==> now
            != last,
        (watch_next(WatchState::Posting { last }, WatchEvent::Posted(reached)).1 is Stop)
            <==> !reached,
        watch_next(WatchState::Posting { last }, WatchEvent::Posted(true)).0 == (WatchState::Waiting {
            last,
        }),
{
}

/// The positions in `snaps`, from `i` on, at which the change token differs
/// from the one before it (`last` before position `i`).
pub open spec fn changes_from(last: u64, snaps: Seq<u64>, i: int) -> Seq<int>
    decreases snaps.len() - i,
{
    if i < 0 || i >= snaps.len() {
        seq![]
    } else if snaps[i] != last {
        seq![i] + changes_from(snaps[i], snaps, i + 1)
    } else {
        changes_from(snaps[i], snaps, i + 1)
    }
}

/// The position of the first reply, from `j` on, that says the reload did
/// not reach fzf; the number of replies where there is none.
pub open spec fn first_refusal(replies: Seq<bool>, j: int) -> int
    decreases replies.len() - j,
{
    if j < 0 || j >= replies.len() {
        replies.len() as int
    } else if !replies[j] {
        j
    } else {
        first_refusal(replies, j + 1)
    }
}

/// The watcher run from `state` on the snapshots `snaps` from position `i`
/// and the replies to its reloads `replies` from position `j`, one step of
/// `watch_next` at a time, until it stops or an event it waits for is not
/// there: the positions of the snapshots after which it posted a reload,
/// and whether it stopped.
pub open spec fn watch_run(state: WatchState, snaps: Seq<u64>, replies: Seq<bool>, i: int, j: int) -> (Seq<int>, bool)
    decreases snaps.len() - i, replies.len() - j,
{
    match state {
        WatchState::Stopped => (seq![], true),
        WatchState::Waiting { .. } => if i < 0 || i >= snaps.len() {
            (seq![], false)
        } else {
            let (next, action) = watch_next(state, WatchEvent::Snapshot(snaps[i]));
            let rest = watch_run(next, snaps, replies, i + 1, j);
            if action is Post {
                (seq![i] + rest.0, rest.1)
            } else {
                rest
            }
        },
        WatchState::Posting { .. } => if j < 0 || j >= replies.len() || i > snaps.len() {
            (seq![], false)
        } else {
            watch_run(watch_next(state, WatchEvent::Posted(replies[j])).0, snaps, replies, i, j + 1)
        },
    }
}

/// The watcher from position `i` of the snapshots and `j` of the replies.
proof fn lemma_watch_run(last: u64, snaps: Seq<u64>, replies: Seq<bool>, i: int, j: int)
    requires
        0 <= i,
        0 <= j <= replies.len(),
    ensures
        ({
            let c = changes_from(last, snaps, i);
            let f = first_refusal(replies, j);
            let r = watch_run(WatchState::Waiting { last }, snaps, replies, i, j);
            let k = if f - j + 1 < c.len() { f - j + 1 } else { c.len() as int };
            &&& j <= f <= replies.len()
            &&& r.0 == c.take(k)
            &&& r.1 == (f < replies.len() && f - j < c.len())
        }),
    decreases snaps.len() - i,
{
    let c = changes_from(last, snaps, i);
    let f = first_refusal(replies, j);
    lemma_first_refusal(replies, j);
    if i >= snaps.len() {
        assert(c.take(0) =~= seq![]);
    } else if snaps[i] == last {
        lemma_watch_run(last, snaps, replies, i + 1, j);
    } else {
        let now = snaps[i];
        let c2 = changes_from(now, snaps, i + 1);
        let posting = WatchState::Posting { last: now };
        assert(c == seq![i] + c2);
        assert(watch_next(WatchState::Waiting { last }, WatchEvent::Snapshot(now)) == (posting, WatchAction::Post));
        if j >= replies.len() {
            assert(watch_run(posting, snaps, replies, i + 1, j) == (Seq::<int>::empty(), false));
            assert(c.take(1) =~= seq![i]);
            assert(seq![i] + Seq::<int>::empty() =~= seq![i]);
        } else if !replies[j] {
            assert(watch_next(posting, WatchEvent::Posted(replies[j])).0 == WatchState::Stopped);
            assert(watch_run(WatchState::Stopped, snaps, replies, i + 1, j + 1) == (Seq::<int>::empty(), true));
            assert(watch_run(posting, snaps, replies, i + 1, j) == (Seq::<int>::empty(), true));
            assert(c.take(1) =~= seq![i]);
            assert(seq![i] + Seq::<int>::empty() =~= seq![i]);
        } else {
            lemma_watch_run(now, snaps, replies, i + 1, j + 1);
            let r2 = watch_run(WatchState::Waiting { last: now }, snaps, replies, i + 1, j + 1);
            assert(watch_run(posting, snaps, replies, i + 1, j) == r2);
            let k2 = if f - j < c2.len() { f - j } else { c2.len() as int };
            assert(seq![i] + c2.take(k2) =~= c.take(k2 + 1));
        }
    }
}

/// Where the first refusal lies.
proof fn lemma_first_refusal(replies: Seq<bool>, j: int)
    requires
        0 <= j <= replies.len(),
    ensures
        j <= first_refusal(replies, j) <= replies.len(),
        first_refusal(replies, j) < replies.len() ==> !replies[first_refusal(replies, j)],
        forall|m: int| j <= m < first_refusal(replies, j) ==> replies[m],
    decreases replies.len() - j,
{
    if j < replies.len() && replies[j] {
        lemma_first_refusal(replies, j + 1);
    }
}

/// Over a whole run: with `h0` the change token taken before the first
/// pause, `snaps` the tokens taken after each pause and `replies` what each
/// reload's POST returned, the watcher posts a reload right after each
/// snapshot whose token differs from the one before it, and after no
/// other, until the first reload that does not reach fzf; it stops right
/// after that one, and it never stops while every reload reaches fzf.
pub proof fn law_watch_run(h0: u64, snaps: Seq<u64>, replies: Seq<bool>)
    ensures
        ({
            let c = changes_from(h0, snaps, 0);
            let f = first_refusal(replies, 0);
            let r = watch_run(WatchState::Waiting { last: h0 }, snaps, replies, 0, 0);
            &&& f < c.len() ==> r.0 == c.take(f + 1)
            &&& c.len() <= f ==> r.0 == c
            &&& r.1 <==> (f < replies.len() && f < c.len())
            &&& (forall|m: int| 0 <= m < replies.len() ==> replies[m]) ==> !r.1
        }),
{
    lemma_watch_run(h0, snaps, replies, 0, 0);
    lemma_first_refusal(replies, 0);
    let c = changes_from(h0, snaps, 0);
    assert(c.take(c.len() as int) =~= c);
}

// ------------------------------------------------------------------
// fzf's --listen port
// ------------------------------------------------------------------

/// The HTTP request that hands fzf an action.
pub open spec fn post_request_text(action: Seq<char>) -> Seq<char> {
    "POST / HTTP/1.1\r\nHost: localhost\r\nContent-Length: "@ + decimal(encode_utf8(action).len())
        + "\r\nConnection: close\r\n\r\n"@ + action
}

/// POST of an action to fzf's `--listen` port (in place of the shell's
/// `curl`); its Content-Length is the action's length in bytes.
pub fn fzf_post_request(action: &str) -> (res: String)
    ensures
        res@ == post_request_text(action@),
{
    let mut out = String::from_str("POST / HTTP/1.1\r\nHost: localhost\r\nContent-Length: ");
    let n = byte_count(action);
    push_decimal(&mut out, n);
    out.append("\r\nConnection: close\r\n\r\n");
    out.append(action);
    out
}

} // verus!
