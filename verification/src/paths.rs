//! Paths out of git's short status: the destination of a rename, and the
//! path list that fzf's `{+2..}` fields spell.

use vstd::prelude::*;
use crate::text::{chars_of, owned, same_text, string_of};

verus! {

/// The separator git writes between a rename's source and destination.
pub open spec fn arrow() -> Seq<char> {
    seq![' ', '-', '>', ' ']
}

/// `s[k..k + 4]` is the separator.
pub open spec fn arrow_at(s: Seq<char>, k: int) -> bool {
    0 <= k && k + 4 <= s.len() && s.subrange(k, k + 4) == arrow()
}

/// The last position at or before `k` where the separator starts.
pub open spec fn last_arrow_upto(s: Seq<char>, k: int) -> Option<int>
    decreases k + 1,
{
    if k < 0 {
        None
    } else if arrow_at(s, k) {
        Some(k)
    } else {
        last_arrow_upto(s, k - 1)
    }
}

/// The last position where the separator starts in `s`.
pub open spec fn last_arrow(s: Seq<char>) -> Option<int> {
    last_arrow_upto(s, s.len() - 4)
}

/// What follows the last separator, or `s` when there is none
/// (`s.rsplit_once(" -> ")`'s second part).
pub open spec fn rename_destination(s: Seq<char>) -> Seq<char> {
    match last_arrow(s) {
        Some(k) => s.skip(k + 4),
        None => s,
    }
}

proof fn lemma_last_arrow_upto(s: Seq<char>, k: int)
    ensures
        match last_arrow_upto(s, k) {
            Some(p) => 0 <= p <= k && arrow_at(s, p) && forall|j: int|
                p < j <= k ==> !#[trigger] arrow_at(s, j),
            None => forall|j: int| j <= k ==> !#[trigger] arrow_at(s, j),
        },
    decreases k + 1,
{
    if k >= 0 && !arrow_at(s, k) {
        lemma_last_arrow_upto(s, k - 1);
    }
}

/// Where the last separator is: no separator starts after it.
proof fn lemma_last_arrow(s: Seq<char>)
    ensures
        match last_arrow(s) {
            Some(p) => arrow_at(s, p) && forall|j: int| p < j ==> !#[trigger] arrow_at(s, j),
            None => forall|j: int| !#[trigger] arrow_at(s, j),
        },
{
    lemma_last_arrow_upto(s, s.len() - 4);
}

fn arrow_at_index(v: &[char], k: usize) -> (b: bool)
    requires
        k + 4 <= v@.len(),
    ensures
        b == arrow_at(v@, k as int),
{
    let b = v[k] == ' ' && v[k + 1] == '-' && v[k + 2] == '>' && v[k + 3] == ' ';
    assert(b == (v@.subrange(k as int, k + 4) =~= arrow()));
    b
}

/// Remove a `X -> ` rename source, leaving the destination path.
pub fn strip_rename(s: &str) -> (res: String)
    ensures
        res@ == rename_destination(s@),
{
    let v = chars_of(s);
    let n = v.len();
    let mut i: usize = n;
    while i >= 4
        invariant
            i <= n,
            n == v@.len(),
            v@ == s@,
            last_arrow(v@) == last_arrow_upto(v@, i - 4),
        decreases i,
    {
        if arrow_at_index(v.as_slice(), i - 4) {
            assert(last_arrow_upto(v@, i - 4) == Some(i - 4));
            assert(v@.skip(i as int) == v@.subrange(i as int, n as int));
            return string_of(v.as_slice(), i, n);
        }
        i = i - 1;
    }
    assert(v@.subrange(0, n as int) == v@);
    string_of(v.as_slice(), 0, n)
}

/// After the last separator there is none: the destination holds no
/// ` -> `.
pub proof fn law_destination_has_no_arrow(s: Seq<char>)
    ensures
        forall|k: int| !#[trigger] arrow_at(rename_destination(s), k),
{
    lemma_last_arrow(s);
    match last_arrow(s) {
        Some(p) => {
            let d = s.skip(p + 4);
            assert forall|k: int| !#[trigger] arrow_at(d, k) by {
                if arrow_at(d, k) {
                    assert(d.subrange(k, k + 4) == s.subrange(p + 4 + k, p + 4 + k + 4));
                    assert(arrow_at(s, p + 4 + k));
                }
            }
        },
        None => {},
    }
}

/// A path with no rename is left as it is.
pub proof fn law_plain_path_unchanged(s: Seq<char>)
    requires
        forall|k: int| !#[trigger] arrow_at(s, k),
    ensures
        rename_destination(s) == s,
{
    lemma_last_arrow(s);
}

/// Stripping twice is stripping once.
pub proof fn law_strip_rename_idempotent(s: Seq<char>)
    ensures
        rename_destination(rename_destination(s)) == rename_destination(s),
{
    law_destination_has_no_arrow(s);
    law_plain_path_unchanged(rename_destination(s));
}

// ------------------------------------------------------------------
// fzf `{+2..}` fields
// ------------------------------------------------------------------

/// The texts of a list of string slices.
pub open spec fn texts_of(args: Seq<&str>) -> Seq<Seq<char>> {
    Seq::new(args.len(), |i: int| args[i]@)
}

/// Reads the fields left to right: a `->` field drops the path just read
/// and takes the field after it in its place.
pub open spec fn resolve_renames(acc: Seq<Seq<char>>, toks: Seq<Seq<char>>) -> Seq<Seq<char>>
    decreases toks.len(),
{
    if toks.len() == 0 {
        acc
    } else if toks[0] == "->"@ {
        let kept = if acc.len() > 0 {
            acc.drop_last()
        } else {
            acc
        };
        if toks.len() >= 2 {
            resolve_renames(kept.push(toks[1]), toks.skip(2))
        } else {
            kept
        }
    } else {
        resolve_renames(acc.push(toks[0]), toks.drop_first())
    }
}

/// The non-empty texts of `ps`, in order.
pub open spec fn non_empty(ps: Seq<Seq<char>>) -> Seq<Seq<char>>
    decreases ps.len(),
{
    if ps.len() == 0 {
        seq![]
    } else if ps.last().len() > 0 {
        non_empty(ps.drop_last()).push(ps.last())
    } else {
        non_empty(ps.drop_last())
    }
}

/// The path list that fields spell.
pub open spec fn field_paths(toks: Seq<Seq<char>>) -> Seq<Seq<char>> {
    non_empty(resolve_renames(seq![], toks))
}

/// Flatten fzf `{+2..}` field args into a path list, dropping rename
/// sources.
pub fn paths_from_fields(args: &[&str]) -> (res: Vec<String>)
    ensures
        res@.len() == field_paths(texts_of(args@)).len(),
        forall|i: int| 0 <= i < res@.len() ==> #[trigger] res@[i]@ == field_paths(
            texts_of(args@),
        )[i],
{
    let ghost toks = texts_of(args@);
    let mut out: Vec<String> = Vec::new();
    let ghost mut outv: Seq<Seq<char>> = seq![];
    let n = args.len();
    let mut i: usize = 0;
    assert(toks.skip(0) == toks);
    while i < n
        invariant
            n == args@.len(),
            toks == texts_of(args@),
            i <= n,
            out@.len() == outv.len(),
            forall|j: int| 0 <= j < out@.len() ==> #[trigger] out@[j]@ == outv[j],
            resolve_renames(seq![], toks) == resolve_renames(outv, toks.skip(i as int)),
        decreases n - i,
    {
        let tok: &str = args[i];
        let ghost rest = toks.skip(i as int);
        assert(rest[0] == tok@);
        if same_text(tok, "->") {
            if out.len() > 0 {
                out.pop();
                proof {
                    outv = outv.drop_last();
                }
            }
            if i + 1 < n {
                let next = owned(args[i + 1]);
                proof {
                    assert(rest[1] == next@);
                    assert(rest.skip(2) == toks.skip(i + 2));
                    outv = outv.push(next@);
                }
                out.push(next);
                i = i + 2;
            } else {
                assert(rest.len() == 1);
                assert(toks.skip(n as int).len() == 0);
                i = n;
            }
        } else {
            let t = owned(tok);
            proof {
                assert(rest.drop_first() == toks.skip(i + 1));
                outv = outv.push(t@);
            }
            out.push(t);
            i = i + 1;
        }
    }
    assert(resolve_renames(seq![], toks) == outv);
    let mut res: Vec<String> = Vec::new();
    let mut k: usize = 0;
    while k < out.len()
        invariant
            k <= out@.len(),
            out@.len() == outv.len(),
            forall|j: int| 0 <= j < out@.len() ==> #[trigger] out@[j]@ == outv[j],
            res@.len() == non_empty(outv.take(k as int)).len(),
            forall|j: int| 0 <= j < res@.len() ==> #[trigger] res@[j]@ == non_empty(
                outv.take(k as int),
            )[j],
        decreases out@.len() - k,
    {
        assert(outv.take(k + 1).drop_last() == outv.take(k as int));
        if !out[k].as_str().is_empty() {
            let p = owned(out[k].as_str());
            res.push(p);
        } else {
            assert(out[k as int]@.len() == 0);
        }
        k = k + 1;
    }
    assert(outv.take(outv.len() as int) == outv);
    res
}

/// `x` is one of the texts of `s`.
pub open spec fn occurs_in(x: Seq<char>, s: Seq<Seq<char>>) -> bool {
    exists|j: int| 0 <= j < s.len() && s[j] == x
}

proof fn lemma_occurs(s: Seq<Seq<char>>, j: int)
    requires
        0 <= j < s.len(),
    ensures
        occurs_in(s[j], s),
{
}

proof fn lemma_resolve_renames_from(acc: Seq<Seq<char>>, toks: Seq<Seq<char>>)
    ensures
        resolve_renames(acc, toks).len() <= acc.len() + toks.len(),
        forall|i: int|
            0 <= i < resolve_renames(acc, toks).len() ==> occurs_in(
                #[trigger] resolve_renames(acc, toks)[i],
                acc,
            ) || occurs_in(resolve_renames(acc, toks)[i], toks),
    decreases toks.len(),
{
    let r = resolve_renames(acc, toks);
    if toks.len() == 0 {
        assert forall|i: int| 0 <= i < r.len() implies occurs_in(#[trigger] r[i], acc) || occurs_in(
            r[i],
            toks,
        ) by {
            lemma_occurs(acc, i);
        }
    } else if toks[0] == "->"@ {
        let kept = if acc.len() > 0 {
            acc.drop_last()
        } else {
            acc
        };
        if toks.len() >= 2 {
            let acc2 = kept.push(toks[1]);
            let rest = toks.skip(2);
            lemma_resolve_renames_from(acc2, rest);
            assert forall|i: int| 0 <= i < r.len() implies occurs_in(#[trigger] r[i], acc)
                || occurs_in(r[i], toks) by {
                if occurs_in(r[i], acc2) {
                    let j = choose|j: int| 0 <= j < acc2.len() && acc2[j] == r[i];
                    if j == kept.len() {
                        lemma_occurs(toks, 1);
                    } else {
                        lemma_occurs(acc, j);
                    }
                } else {
                    let j = choose|j: int| 0 <= j < rest.len() && rest[j] == r[i];
                    lemma_occurs(toks, j + 2);
                }
            }
        } else {
            assert forall|i: int| 0 <= i < r.len() implies occurs_in(#[trigger] r[i], acc)
                || occurs_in(r[i], toks) by {
                lemma_occurs(acc, i);
            }
        }
    } else {
        let acc2 = acc.push(toks[0]);
        let rest = toks.drop_first();
        lemma_resolve_renames_from(acc2, rest);
        assert forall|i: int| 0 <= i < r.len() implies occurs_in(#[trigger] r[i], acc) || occurs_in(
            r[i],
            toks,
        ) by {
            if occurs_in(r[i], acc2) {
                let j = choose|j: int| 0 <= j < acc2.len() && acc2[j] == r[i];
                if j == acc.len() {
                    lemma_occurs(toks, 0);
                } else {
                    lemma_occurs(acc, j);
                }
            } else {
                let j = choose|j: int| 0 <= j < rest.len() && rest[j] == r[i];
                lemma_occurs(toks, j + 1);
            }
        }
    }
}

proof fn lemma_non_empty(ps: Seq<Seq<char>>)
    ensures
        non_empty(ps).len() <= ps.len(),
        forall|i: int|
            0 <= i < non_empty(ps).len() ==> #[trigger] non_empty(ps)[i].len() > 0 && occurs_in(
                non_empty(ps)[i],
                ps,
            ),
    decreases ps.len(),
{
    if ps.len() > 0 {
        let init = ps.drop_last();
        lemma_non_empty(init);
        let r = non_empty(ps);
        assert forall|i: int| 0 <= i < r.len() implies #[trigger] r[i].len() > 0 && occurs_in(
            r[i],
            ps,
        ) by {
            if i < non_empty(init).len() {
                assert(non_empty(init)[i].len() > 0);
                let j = choose|j: int| 0 <= j < init.len() && init[j] == non_empty(init)[i];
                lemma_occurs(ps, j);
            } else {
                lemma_occurs(ps, ps.len() - 1);
            }
        }
    }
}

/// Every path in the list is non-empty and is one of the fields; there are
/// no more paths than fields.
pub proof fn law_field_paths(toks: Seq<Seq<char>>)
    ensures
        field_paths(toks).len() <= toks.len(),
        forall|i: int|
            0 <= i < field_paths(toks).len() ==> #[trigger] field_paths(toks)[i].len() > 0
                && occurs_in(field_paths(toks)[i], toks),
{
    let empty: Seq<Seq<char>> = seq![];
    lemma_resolve_renames_from(empty, toks);
    let r = resolve_renames(empty, toks);
    lemma_non_empty(r);
    let f = field_paths(toks);
    assert(f == non_empty(r));
    assert forall|i: int| 0 <= i < f.len() implies #[trigger] f[i].len() > 0 && occurs_in(
        f[i],
        toks,
    ) by {
        assert(non_empty(r)[i].len() > 0);
        let k = choose|k: int| 0 <= k < r.len() && r[k] == f[i];
        assert(occurs_in(r[k], empty) || occurs_in(r[k], toks));
    }
}

// ------------------------------------------------------------------
// the same list, read off the fields' text with `sed`
// ------------------------------------------------------------------

/// Index of the first space in `s`, or `s.len()` when there is none.
pub open spec fn first_space(s: Seq<char>) -> nat
    decreases s.len(),
{
    if s.len() == 0 {
        0
    } else if s[0] == ' ' {
        0
    } else {
        1 + first_space(s.drop_first())
    }
}

/// Where the first space is, and that none comes before it.
pub proof fn lemma_first_space(s: Seq<char>)
    ensures
        first_space(s) <= s.len(),
        first_space(s) < s.len() ==> s[first_space(s) as int] == ' ',
        forall|j: int| 0 <= j < first_space(s) ==> s[j] != ' ',
    decreases s.len(),
{
    if s.len() > 0 && s[0] != ' ' {
        lemma_first_space(s.drop_first());
        assert forall|j: int| 0 <= j < first_space(s) implies s[j] != ' ' by {
            if j > 0 {
                assert(s[j] == s.drop_first()[j - 1]);
            }
        }
    }
}

/// `s` holds no space.
pub open spec fn spaceless(s: Seq<char>) -> bool {
    forall|j: int| 0 <= j < s.len() ==> s[j] != ' '
}

/// `s` with every match of the regular expression `[^ ]* -> ` removed,
/// left to right (what `sed 's/[^ ]* -> //g'` does to a line): a match
/// starts at a position whose run of non-spaces is followed by ` -> `, and
/// the scan goes on after it.
pub open spec fn sed_drop_renames(s: Seq<char>) -> Seq<char>
    decreases s.len(),
{
    if s.len() == 0 {
        seq![]
    } else if arrow_at(s, first_space(s) as int) {
        sed_drop_renames(s.skip(first_space(s) + 4int))
    } else {
        seq![s[0]] + sed_drop_renames(s.drop_first())
    }
}

/// The non-empty pieces of `s.split(' ')`.
pub open spec fn words(s: Seq<char>) -> Seq<Seq<char>>
    decreases s.len(),
{
    if s.len() == 0 {
        seq![]
    } else if s[0] == ' ' {
        words(s.drop_first())
    } else {
        proof {
            lemma_first_space(s);
        }
        seq![s.take(first_space(s) as int)] + words(s.skip(first_space(s) as int))
    }
}

/// The fields joined by single spaces (`fields.join(" ")`).
pub open spec fn joined_fields(toks: Seq<Seq<char>>) -> Seq<char>
    decreases toks.len(),
{
    if toks.len() == 0 {
        seq![]
    } else if toks.len() == 1 {
        toks[0]
    } else {
        toks[0] + seq![' '] + joined_fields(toks.drop_first())
    }
}

/// Fields as git's short status gives them to fzf: each one non-empty and
/// without spaces, no `->` first or last, no two `->` in a row.
pub open spec fn plain_fields(toks: Seq<Seq<char>>) -> bool {
    &&& forall|i: int| 0 <= i < toks.len() ==> #[trigger] toks[i].len() > 0 && spaceless(toks[i])
    &&& toks.len() > 0 ==> toks[0] != "->"@ && toks.last() != "->"@
    &&& forall|i: int| 0 <= i < toks.len() - 1 ==> #[trigger] toks[i] == "->"@ ==> toks[i + 1] != "->"@
}

/// The text starts with `-> `.
pub open spec fn arrow_next(x: Seq<char>) -> bool {
    x.len() >= 3 && x[0] == '-' && x[1] == '>' && x[2] == ' '
}

proof fn lemma_first_space_after(t: Seq<char>, x: Seq<char>)
    requires
        spaceless(t),
    ensures
        first_space(t + x) == t.len() + first_space(x),
    decreases t.len(),
{
    if t.len() > 0 {
        assert((t + x).drop_first() == t.drop_first() + x);
        assert((t + x)[0] == t[0]);
        lemma_first_space_after(t.drop_first(), x);
    } else {
        assert(t + x == x);
    }
}

proof fn lemma_sed_spaceless(t: Seq<char>)
    requires
        spaceless(t),
    ensures
        sed_drop_renames(t) == t,
    decreases t.len(),
{
    if t.len() > 0 {
        lemma_first_space(t);
        lemma_first_space_after(t, seq![]);
        assert(t + Seq::<char>::empty() == t);
        lemma_sed_spaceless(t.drop_first());
        assert(seq![t[0]] + t.drop_first() == t);
    }
}

proof fn lemma_sed_word(t: Seq<char>, x: Seq<char>)
    requires
        spaceless(t),
    ensures
        sed_drop_renames(t + seq![' '] + x) == (if arrow_next(x) {
            sed_drop_renames(x.skip(3))
        } else {
            t + seq![' '] + sed_drop_renames(x)
        }),
    decreases t.len(),
{
    let s = t + seq![' '] + x;
    assert(s == t + (seq![' '] + x));
    lemma_first_space_after(t, seq![' '] + x);
    assert(first_space(s) == t.len());
    let k = t.len() as int;
    if arrow_next(x) {
        assert(s.subrange(k, k + 4) =~= arrow());
        assert(s.skip(k + 4) =~= x.skip(3));
    } else {
        if s.len() >= k + 4 {
            assert(s.subrange(k, k + 4)[1] == x[0]);
            assert(s.subrange(k, k + 4)[2] == x[1]);
            assert(s.subrange(k, k + 4)[3] == x[2]);
            assert(s.subrange(k, k + 4) != arrow());
        }
        assert(!arrow_at(s, k));
        if t.len() == 0 {
            assert(s.drop_first() =~= x);
            assert(t + seq![' '] + sed_drop_renames(x) =~= seq![' '] + sed_drop_renames(x));
        } else {
            assert(s.drop_first() =~= t.drop_first() + seq![' '] + x);
            lemma_sed_word(t.drop_first(), x);
            assert(seq![t[0]] + (t.drop_first() + seq![' '] + sed_drop_renames(x)) =~= t + seq![' ']
                + sed_drop_renames(x));
        }
    }
}

proof fn lemma_words_word(t: Seq<char>, x: Seq<char>)
    requires
        t.len() > 0,
        spaceless(t),
    ensures
        words(t + seq![' '] + x) == seq![t] + words(x),
        words(t) == seq![t],
{
    let s = t + seq![' '] + x;
    let sx = seq![' '] + x;
    assert(s == t + sx);
    assert(sx[0] == ' ');
    assert(first_space(sx) == 0);
    lemma_first_space_after(t, sx);
    assert(s[0] == t[0]);
    assert(s.take(t.len() as int) =~= t);
    assert(s.skip(t.len() as int) =~= sx);
    assert(sx.drop_first() =~= x);
    assert(words(sx) == words(x));
    assert(words(s) == seq![s.take(first_space(s) as int)] + words(s.skip(first_space(s) as int)));
    let e = Seq::<char>::empty();
    assert(first_space(e) == 0);
    lemma_first_space_after(t, e);
    assert(t + e == t);
    assert(t.take(t.len() as int) == t);
    assert(t.skip(t.len() as int) =~= e);
    assert(words(e) == Seq::<Seq<char>>::empty());
    assert(words(t) == seq![t.take(first_space(t) as int)] + words(t.skip(first_space(t) as int)));
    assert(seq![t] + Seq::<Seq<char>>::empty() == seq![t]);
}

proof fn lemma_arrow_next_joined(toks: Seq<Seq<char>>)
    requires
        toks.len() >= 1,
        forall|i: int| 0 <= i < toks.len() ==> #[trigger] toks[i].len() > 0 && spaceless(toks[i]),
    ensures
        arrow_next(joined_fields(toks)) <==> (toks[0] == "->"@ && toks.len() >= 2),
        toks[0] == "->"@ && toks.len() >= 2 ==> joined_fields(toks).skip(3) == joined_fields(
            toks.drop_first(),
        ),
{
    reveal_strlit("->");
    let t0 = toks[0];
    assert(t0.len() > 0 && spaceless(t0));
    if toks.len() == 1 {
        if arrow_next(t0) {
            assert(t0[2] != ' ');
        }
    } else {
        let x = joined_fields(toks);
        let rest = joined_fields(toks.drop_first());
        assert(x == t0 + seq![' '] + rest);
        if arrow_next(x) {
            if t0.len() >= 3 {
                assert(x[2] == t0[2]);
            }
            if t0.len() == 1 {
                assert(x[1] == ' ');
            }
            assert(t0.len() == 2);
            assert(t0 =~= "->"@);
        }
        if t0 == "->"@ {
            assert(x[0] == '-' && x[1] == '>' && x[2] == ' ');
            assert(x.skip(3) =~= rest);
        }
    }
}

proof fn lemma_resolve_prefix(acc: Seq<Seq<char>>, rest: Seq<Seq<char>>)
    requires
        plain_fields(rest),
    ensures
        resolve_renames(acc, rest) == acc + resolve_renames(seq![], rest),
    decreases rest.len(),
{
    let empty: Seq<Seq<char>> = seq![];
    if rest.len() == 0 {
        assert(acc + empty == acc);
    } else {
        let t = rest[0];
        let r1 = rest.drop_first();
        if rest.len() >= 2 && rest[1] == "->"@ {
            assert(rest.len() >= 3) by {
                if rest.len() == 2 {
                    assert(rest.last() == rest[1]);
                }
            }
            let r2 = rest.skip(2);
            assert(r1[0] == "->"@);
            assert(r1.skip(2) =~= rest.skip(3));
            assert(r2.drop_first() =~= rest.skip(3));
            assert(r2[0] == rest[2]);
            assert(rest[2] != "->"@);
            assert(acc.push(t).drop_last() =~= acc);
            assert(empty.push(t).drop_last() =~= empty);
            assert(plain_fields(r2)) by {
                assert(r2.last() == rest.last());
                assert forall|i: int| 0 <= i < r2.len() implies #[trigger] r2[i].len() > 0 && spaceless(r2[i]) by {
                    assert(r2[i] == rest[i + 2]);
                }
                assert forall|i: int| 0 <= i < r2.len() - 1 && #[trigger] r2[i] == "->"@ implies r2[i + 1] != "->"@ by {
                    assert(r2[i] == rest[i + 2]);
                    assert(r2[i + 1] == rest[i + 3]);
                }
            }
            lemma_resolve_prefix(acc, r2);
            assert(t != "->"@);
            assert(r1[1] == rest[2]);
            assert(resolve_renames(acc, rest) == resolve_renames(acc.push(t), r1));
            assert(resolve_renames(acc.push(t), r1) == resolve_renames(
                acc.push(t).drop_last().push(r1[1]),
                r1.skip(2),
            ));
            assert(resolve_renames(acc, r2) == resolve_renames(acc.push(rest[2]), rest.skip(3)));
            assert(resolve_renames(empty, rest) == resolve_renames(empty.push(t), r1));
            assert(resolve_renames(empty.push(t), r1) == resolve_renames(
                empty.push(t).drop_last().push(r1[1]),
                r1.skip(2),
            ));
            assert(resolve_renames(empty, r2) == resolve_renames(empty.push(rest[2]), rest.skip(3)));
        } else {
            assert(plain_fields(r1)) by {
                if r1.len() > 0 {
                    assert(r1[0] == rest[1]);
                    assert(r1.last() == rest.last());
                }
                assert forall|i: int| 0 <= i < r1.len() implies #[trigger] r1[i].len() > 0 && spaceless(r1[i]) by {
                    assert(r1[i] == rest[i + 1]);
                }
                assert forall|i: int| 0 <= i < r1.len() - 1 && #[trigger] r1[i] == "->"@ implies r1[i + 1] != "->"@ by {
                    assert(r1[i] == rest[i + 1]);
                    assert(r1[i + 1] == rest[i + 2]);
                }
            }
            lemma_resolve_prefix(acc.push(t), r1);
            lemma_resolve_prefix(empty.push(t), r1);
            assert(t != "->"@);
            assert(resolve_renames(acc, rest) == resolve_renames(acc.push(t), r1));
            assert(resolve_renames(empty, rest) == resolve_renames(empty.push(t), r1));
            assert(acc.push(t) + resolve_renames(empty, r1) =~= acc + (empty.push(t) + resolve_renames(
                empty,
                r1,
            )));
        }
    }
}

proof fn lemma_sed_reading(toks: Seq<Seq<char>>)
    requires
        plain_fields(toks),
    ensures
        words(sed_drop_renames(joined_fields(toks))) == resolve_renames(seq![], toks),
    decreases toks.len(),
{
    let empty: Seq<Seq<char>> = seq![];
    if toks.len() == 0 {
    } else if toks.len() == 1 {
        let t0 = toks[0];
        assert(t0.len() > 0 && spaceless(t0));
        lemma_sed_spaceless(t0);
        lemma_words_word(t0, seq![]);
        assert(joined_fields(toks) == t0);
        assert(words(sed_drop_renames(joined_fields(toks))) == seq![t0]);
        assert(toks.drop_first() =~= Seq::<Seq<char>>::empty());
        assert(t0 != "->"@);
        assert(resolve_renames(empty, toks) == resolve_renames(empty.push(t0), toks.drop_first()));
        assert(empty.push(t0) =~= seq![t0]);
    } else {
        let t0 = toks[0];
        assert(t0.len() > 0 && spaceless(t0));
        let rest = toks.drop_first();
        assert forall|i: int| 0 <= i < rest.len() implies #[trigger] rest[i].len() > 0 && spaceless(rest[i]) by {
            assert(rest[i] == toks[i + 1]);
        }
        lemma_arrow_next_joined(rest);
        lemma_sed_word(t0, joined_fields(rest));
        assert(joined_fields(toks) == t0 + seq![' '] + joined_fields(rest));
        assert(t0 != "->"@);
        assert(resolve_renames(empty, toks) == resolve_renames(empty.push(t0), rest));
        if rest[0] == "->"@ {
            assert(toks[1] == "->"@);
            assert(rest.len() >= 2) by {
                if rest.len() == 1 {
                    assert(toks.last() == toks[1]);
                }
            }
            let r2 = toks.skip(2);
            assert(rest.drop_first() =~= r2);
            assert(r2[0] == toks[2]);
            assert(toks[2] != "->"@);
            assert(plain_fields(r2)) by {
                assert(r2.last() == toks.last());
                assert forall|i: int| 0 <= i < r2.len() implies #[trigger] r2[i].len() > 0 && spaceless(r2[i]) by {
                    assert(r2[i] == toks[i + 2]);
                }
                assert forall|i: int| 0 <= i < r2.len() - 1 && #[trigger] r2[i] == "->"@ implies r2[i + 1] != "->"@ by {
                    assert(r2[i] == toks[i + 2]);
                    assert(r2[i + 1] == toks[i + 3]);
                }
            }
            lemma_sed_reading(r2);
            assert(rest.skip(2) =~= r2.drop_first());
            assert(empty.push(t0).drop_last() =~= empty);
            assert(resolve_renames(empty, toks) == resolve_renames(empty.push(t0), rest));
            assert(resolve_renames(empty.push(t0), rest) == resolve_renames(empty.push(rest[1]), rest.skip(2)));
            assert(resolve_renames(empty, r2) == resolve_renames(empty.push(r2[0]), r2.drop_first()));
        } else {
            assert(plain_fields(rest)) by {
                assert(rest.last() == toks.last());
                assert forall|i: int| 0 <= i < rest.len() - 1 && #[trigger] rest[i] == "->"@ implies rest[i + 1] != "->"@ by {
                    assert(rest[i] == toks[i + 1]);
                    assert(rest[i + 1] == toks[i + 2]);
                }
            }
            lemma_sed_reading(rest);
            lemma_words_word(t0, sed_drop_renames(joined_fields(rest)));
            lemma_resolve_prefix(empty.push(t0), rest);
            assert(empty.push(t0) == seq![t0]);
        }
    }
}

proof fn lemma_non_empty_all(ps: Seq<Seq<char>>)
    requires
        forall|i: int| 0 <= i < ps.len() ==> #[trigger] ps[i].len() > 0,
    ensures
        non_empty(ps) == ps,
    decreases ps.len(),
{
    if ps.len() > 0 {
        let init = ps.drop_last();
        assert forall|i: int| 0 <= i < init.len() implies #[trigger] init[i].len() > 0 by {
            assert(init[i] == ps[i]);
        }
        lemma_non_empty_all(init);
        assert(ps.last() == ps[ps.len() - 1]);
        assert(init.push(ps.last()) =~= ps);
    }
}

/// For fields as git's short status gives them, the path list is what
/// `sed 's/[^ ]* -> //g'` leaves of the fields joined by spaces, split back
/// into words.
pub proof fn law_field_paths_match_sed(toks: Seq<Seq<char>>)
    requires
        plain_fields(toks),
    ensures
        field_paths(toks) == words(sed_drop_renames(joined_fields(toks))),
{
    let empty: Seq<Seq<char>> = seq![];
    lemma_sed_reading(toks);
    lemma_resolve_renames_from(empty, toks);
    let r = resolve_renames(empty, toks);
    assert forall|i: int| 0 <= i < r.len() implies #[trigger] r[i].len() > 0 by {
        assert(occurs_in(r[i], empty) || occurs_in(r[i], toks));
        let j = choose|j: int| 0 <= j < toks.len() && toks[j] == r[i];
        assert(toks[j].len() > 0);
    }
    lemma_non_empty_all(r);
}

} // verus!
