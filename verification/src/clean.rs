use vstd::prelude::*;
use crate::clock::{Timestamp, seconds_between, trunc_div};
use crate::git::WorktreeInfo;
use crate::paths::{path_equal, same_path};
use crate::pr::{JsonValue, json_get, text_of};
use crate::text::{chars_of, decimal, parse_i64, parse_i64_spec, signed_decimal, signed_decimal_string, str_eq, string_views};

verus! {

/// Which worktrees `wt clean` (and `wt list`) picks: every clean one, those merged, those
/// whose pull request was closed, or those older than some days.
pub struct CleanFilter {
    pub all: bool,
    pub merged: bool,
    pub closed: bool,
    pub days: Option<i64>,
}

impl CleanFilter {
    /// Some filter was asked for.
    pub fn any(&self) -> (r: bool)
        ensures
            r == (self.all || self.merged || self.closed || self.days is Some),
    {
        self.all || self.merged || self.closed || self.days.is_some()
    }
}

/// Some `--days` is followed by a value that is not a whole number.
pub open spec fn days_invalid(a: Seq<Seq<char>>) -> bool {
    exists|i: int| 0 <= i < a.len() - 1 && a[i] == "--days"@ && #[trigger] parse_i64_spec(a[i + 1]) is None
}

/// The value after the last `--days` that has one.
pub open spec fn days_value(a: Seq<Seq<char>>) -> Option<i64>
    decreases a.len(),
{
    if a.len() < 2 {
        None
    } else if a[a.len() - 2] == "--days"@ {
        parse_i64_spec(a.last())
    } else {
        days_value(a.drop_last())
    }
}

/// `parse_clean_filter_options`: `--all`, `--merged`, `--closed` anywhere, and
/// `--days N`; `Err` (the "Invalid days value" failure) when a `--days` is followed by
/// something that is not a whole number.
pub fn parse_clean_filter_options(args: &Vec<String>) -> (r: Result<CleanFilter, ()>)
    ensures
        ({
            let a = string_views(args@);
            match r {
                Ok(f) => !days_invalid(a) && f.all == a.contains("--all"@) && f.merged == a.contains(
                    "--merged"@,
                ) && f.closed == a.contains("--closed"@) && f.days == days_value(a),
                Err(_) => days_invalid(a),
            }
        }),
{
    let ghost a = string_views(args@);
    let mut all = false;
    let mut merged = false;
    let mut closed = false;
    let mut days: Option<i64> = None;
    let n = args.len();
    for i in 0..n
        invariant
            n == args.len(),
            a == string_views(args@),
            all == a.take(i as int).contains("--all"@),
            merged == a.take(i as int).contains("--merged"@),
            closed == a.take(i as int).contains("--closed"@),
            days == days_value(a.take(if i + 1 <= n { (i + 1) as int } else { n as int })),
            forall|k: int| 0 <= k < i && k < n - 1 && a[k] == "--days"@ ==> #[trigger] parse_i64_spec(a[k + 1]) is Some,
    {
        let arg = args[i].as_str();
        assert(a.take(i + 1).drop_last() =~= a.take(i as int));
        assert(a.take(i + 1).last() == arg@);
        if str_eq(arg, "--all") {
            all = true;
        }
        if str_eq(arg, "--merged") {
            merged = true;
        }
        if str_eq(arg, "--closed") {
            closed = true;
        }
        if i + 1 < n {
            assert(a.take(i + 2).drop_last() =~= a.take(i + 1));
            if str_eq(arg, "--days") {
                match parse_i64(&chars_of(args[i + 1].as_str())) {
                    Some(v) => {
                        days = Some(v);
                    },
                    None => {
                        assert(parse_i64_spec(a[i + 1]) is None);
                        return Err(());
                    },
                }
            }
        }
    }
    assert(a.take(n as int) =~= a);
    Ok(CleanFilter { all, merged, closed, days })
}

/// The names of the branches of the pull requests `gh` listed.
pub open spec fn head_names(items: Seq<JsonValue>) -> Seq<Seq<char>>
    decreases items.len(),
{
    if items.len() == 0 {
        seq![]
    } else {
        match text_of(json_get(items.last(), "headRefName"@)) {
            Some(n) => head_names(items.drop_last()).push(n),
            None => head_names(items.drop_last()),
        }
    }
}

/// The branch names of a `gh pr list --json headRefName` listing (none if it is not a list).
pub fn pr_head_names(listing: &JsonValue) -> (r: Vec<String>)
    ensures
        string_views(r@) == match *listing {
            JsonValue::Array(items) => head_names(items@),
            _ => seq![],
        },
{
    let mut out: Vec<String> = Vec::new();
    match listing {
        JsonValue::Array(items) => {
            for i in 0..items.len()
                invariant
                    string_views(out@) == head_names(items@.take(i as int)),
            {
                assert(items@.take(i + 1).drop_last() =~= items@.take(i as int));
                let ghost o0 = string_views(out@);
                match crate::pr::get_member(&items[i], "headRefName") {
                    Some(JsonValue::Str(s)) => {
                        out.push(s.clone());
                        assert(string_views(out@) =~= o0.push(s@));
                    },
                    _ => {},
                }
            }
            assert(items@.take(items.len() as int) =~= items@);
        },
        _ => {
            assert(string_views(out@) =~= Seq::<Seq<char>>::empty());
        },
    }
    out
}

/// What `wt clean` learned of the repository before choosing: the worktrees reached
/// through symbolic links in the base directory, the branches merged into the default
/// branch, those of merged and of closed pull requests, and the default branch's commit.
pub struct CleanFacts {
    pub aliases: Vec<String>,
    pub merged: Vec<String>,
    pub merged_prs: Vec<String>,
    pub closed_prs: Vec<String>,
    pub default_sha: Option<String>,
}

pub open spec fn listed(v: Seq<String>, s: Seq<char>) -> bool {
    string_views(v).contains(s)
}

/// The worktree is the repository itself or one of its aliases, which are never cleaned.
pub open spec fn is_protected(w: WorktreeInfo, base_dir: Seq<char>, f: CleanFacts) -> bool {
    path_equal(w.path@, base_dir) || exists|i: int|
        0 <= i < f.aliases.len() && path_equal(w.path@, #[trigger] f.aliases@[i]@)
}

/// The commit of the worktree's branch must be compared with the default branch's: the
/// branch counts as merged only through `git branch --merged`, not through a merged pull
/// request, and the default branch's commit is known.
pub open spec fn sha_check_wanted(w: WorktreeInfo, f: CleanFacts, filter: CleanFilter) -> bool {
    &&& filter.merged
    &&& (listed(f.merged@, w.branch@) || listed(f.merged_prs@, w.branch@))
    &&& f.default_sha is Some
    &&& !listed(f.merged_prs@, w.branch@)
}

/// Why a worktree is cleaned, or `None` when it is not: a clean merged branch (unless it
/// still points at the default branch's commit), a clean branch whose pull request was
/// closed, a clean worktree created at least `days` days ago, or any clean one with
/// `--all`. `branch_sha` is the commit of the worktree's branch, when it was asked for.
pub open spec fn clean_reason_spec(
    w: WorktreeInfo,
    base_dir: Seq<char>,
    f: CleanFacts,
    filter: CleanFilter,
    now: Timestamp,
    branch_sha: Option<Seq<char>>,
) -> Option<Seq<char>> {
    let in_merged = listed(f.merged@, w.branch@) || listed(f.merged_prs@, w.branch@);
    if is_protected(w, base_dir, f) {
        None
    } else if sha_check_wanted(w, f, filter) && branch_sha == Some(f.default_sha->0@) {
        None
    } else if filter.merged && in_merged && w.is_clean {
        Some("merged"@)
    } else if filter.closed && listed(f.closed_prs@, w.branch@) && w.is_clean {
        Some("closed"@)
    } else if w.is_clean {
        match filter.days {
            Some(d) => match w.created {
                Some(c) => if trunc_div(seconds_between(now, c), 86400) >= d {
                    Some("older than "@ + signed_decimal(d as int) + " days"@)
                } else {
                    None
                },
                None => None,
            },
            None => if filter.all {
                Some("clean"@)
            } else {
                None
            },
        }
    } else {
        None
    }
}

fn listed_exec(v: &Vec<String>, s: &str) -> (r: bool)
    ensures
        r == listed(v@, s@),
{
    let ghost sv = string_views(v@);
    for i in 0..v.len()
        invariant
            sv == string_views(v@),
            forall|k: int| 0 <= k < i ==> sv[k] != s@,
    {
        if str_eq(v[i].as_str(), s) {
            assert(sv[i as int] == s@);
            return true;
        }
    }
    false
}

fn protected_exec(w: &WorktreeInfo, base_dir: &str, f: &CleanFacts) -> (r: bool)
    ensures
        r == is_protected(*w, base_dir@, *f),
{
    if same_path(w.path.as_str(), base_dir) {
        return true;
    }
    for i in 0..f.aliases.len()
        invariant
            !path_equal(w.path@, base_dir@),
            forall|k: int| 0 <= k < i ==> !path_equal(w.path@, #[trigger] f.aliases@[k]@),
    {
        if same_path(w.path.as_str(), f.aliases[i].as_str()) {
            return true;
        }
    }
    false
}

/// Whether the commit of this worktree's branch has to be looked up.
pub fn needs_branch_sha(w: &WorktreeInfo, f: &CleanFacts, filter: &CleanFilter) -> (r: bool)
    ensures
        r == sha_check_wanted(*w, *f, *filter),
{
    let in_pr = listed_exec(&f.merged_prs, w.branch.as_str());
    filter.merged && (listed_exec(&f.merged, w.branch.as_str()) || in_pr) && f.default_sha.is_some()
        && !in_pr
}

/// Why `wt clean` would remove this worktree, if it would.
pub fn clean_reason(
    w: &WorktreeInfo,
    base_dir: &str,
    f: &CleanFacts,
    filter: &CleanFilter,
    now: Timestamp,
    branch_sha: Option<&str>,
) -> (r: Option<String>)
    ensures
        match r {
            Some(s) => clean_reason_spec(*w, base_dir@, *f, *filter, now, match branch_sha {
                Some(b) => Some(b@),
                None => None,
            }) == Some(s@),
            None => clean_reason_spec(*w, base_dir@, *f, *filter, now, match branch_sha {
                Some(b) => Some(b@),
                None => None,
            }) is None,
        },
        r is Some ==> w.is_clean && !is_protected(*w, base_dir@, *f),
{
    proof {
        lemma_clean_only_clean_worktrees(*w, base_dir@, *f, *filter, now, match branch_sha {
            Some(b) => Some(b@),
            None => None,
        });
    }
    if protected_exec(w, base_dir, f) {
        return None;
    }
    if needs_branch_sha(w, f, filter) {
        match (branch_sha, &f.default_sha) {
            (Some(b), Some(d)) => {
                if str_eq(b, d.as_str()) {
                    return None;
                }
            },
            _ => {},
        }
    }
    let in_merged = listed_exec(&f.merged, w.branch.as_str()) || listed_exec(&f.merged_prs, w.branch.as_str());
    if filter.merged && in_merged && w.is_clean {
        return Some(String::from_str("merged"));
    }
    if filter.closed && listed_exec(&f.closed_prs, w.branch.as_str()) && w.is_clean {
        return Some(String::from_str("closed"));
    }
    if !w.is_clean {
        return None;
    }
    match filter.days {
        Some(d) => match w.created {
            Some(c) => {
                if days_since(now, c) >= d as i128 {
                    let mut s = String::from_str("older than ");
                    s.append(signed_decimal_string(d).as_str());
                    s.append(" days");
                    Some(s)
                } else {
                    None
                }
            },
            None => None,
        },
        None => {
            if filter.all {
                Some(String::from_str("clean"))
            } else {
                None
            }
        },
    }
}

/// `now.signed_duration_since(then).num_days()`.
pub fn days_since(now: Timestamp, then: Timestamp) -> (r: i128)
    ensures
        r == trunc_div(seconds_between(now, then), 86400),
{
    let ds: i128 = (now.secs as i128) - (then.secs as i128);
    let dn: i128 = (now.nanos as i128) - (then.nanos as i128);
    assert(ds * 1_000_000_000 <= 0x1_0000_0000_0000_0000 * 1_000_000_000) by (nonlinear_arith)
        requires
            ds <= 0x1_0000_0000_0000_0000,
    ;
    assert(ds * 1_000_000_000 >= -0x1_0000_0000_0000_0000 * 1_000_000_000) by (nonlinear_arith)
        requires
            ds >= -0x1_0000_0000_0000_0000,
    ;
    let total: i128 = ds * 1_000_000_000 + dn;
    let s: i128 = if total >= 0 {
        total / 1_000_000_000
    } else {
        -((-total) / 1_000_000_000)
    };
    if s >= 0 {
        s / 86400
    } else {
        -((-s) / 86400)
    }
}

/// The worktrees kept by `wt clean`'s choice, in order, each with its reason: the index
/// of each kept one and why.
pub open spec fn kept(reasons: Seq<Option<Seq<char>>>) -> Seq<(int, Seq<char>)>
    decreases reasons.len(),
{
    if reasons.len() == 0 {
        seq![]
    } else {
        let rest = kept(reasons.drop_last());
        match reasons.last() {
            Some(r) => rest.push(((reasons.len() - 1) as int, r)),
            None => rest,
        }
    }
}

/// `a` is `b` with perhaps another reason.
pub open spec fn same_but_reason(a: WorktreeInfo, b: WorktreeInfo) -> bool {
    &&& a.path == b.path
    &&& a.head == b.head
    &&& a.branch == b.branch
    &&& a.created == b.created
    &&& a.last_commit == b.last_commit
    &&& a.is_clean == b.is_clean
    &&& a.has_untracked == b.has_untracked
    &&& a.insertions == b.insertions
    &&& a.deletions == b.deletions
    &&& a.pr_info == b.pr_info
    &&& a.missing == b.missing
}

/// The reasons of all worktrees.
pub open spec fn reasons_spec(
    ws: Seq<WorktreeInfo>,
    base_dir: Seq<char>,
    f: CleanFacts,
    filter: CleanFilter,
    now: Timestamp,
    shas: Seq<Option<String>>,
) -> Seq<Option<Seq<char>>> {
    Seq::new(
        ws.len(),
        |i: int|
            clean_reason_spec(ws[i], base_dir, f, filter, now, match shas[i] {
                Some(s) => Some(s@),
                None => None,
            }),
    )
}

/// `resolve_clean_targets`: the worktrees `wt clean` removes, each with its reason.
/// `shas[i]` is the commit of worktree `i`'s branch where `needs_branch_sha` asked for it.
pub fn resolve_clean_targets(
    worktrees: Vec<WorktreeInfo>,
    base_dir: &str,
    facts: &CleanFacts,
    filter: &CleanFilter,
    now: Timestamp,
    shas: &Vec<Option<String>>,
) -> (r: Vec<WorktreeInfo>)
    requires
        shas.len() == worktrees.len(),
    ensures
        ({
            let k = kept(reasons_spec(worktrees@, base_dir@, *facts, *filter, now, shas@));
            &&& r.len() == k.len()
            &&& forall|i: int|
                0 <= i < r.len() ==> same_but_reason(#[trigger] r@[i], worktrees@[k[i].0])
                    && r@[i].reason@ == k[i].1
        }),
        forall|i: int| 0 <= i < r.len() ==> (#[trigger] r@[i]).is_clean,
{
    let ghost ws = worktrees@;
    let ghost rs = reasons_spec(ws, base_dir@, *facts, *filter, now, shas@);
    let mut items = worktrees;
    let mut out: Vec<WorktreeInfo> = Vec::new();
    let n = items.len();
    let mut i: usize = 0;
    assert(ws.skip(0) =~= ws);
    while i < n
        invariant
            n == ws.len(),
            n == shas.len(),
            rs == reasons_spec(ws, base_dir@, *facts, *filter, now, shas@),
            i <= n,
            items@ == ws.skip(i as int),
            out.len() == kept(rs.take(i as int)).len(),
            forall|k: int|
                0 <= k < out.len() ==> same_but_reason(#[trigger] out@[k], ws[kept(rs.take(i as int))[k].0])
                    && out@[k].reason@ == kept(rs.take(i as int))[k].1,
            forall|k: int| 0 <= k < out.len() ==> (#[trigger] out@[k]).is_clean,
        decreases n - i,
    {
        let ghost before = kept(rs.take(i as int));
        assert(rs.take(i + 1).drop_last() =~= rs.take(i as int));
        assert(items@[0] == ws[i as int]);
        let mut w = items.remove(0);
        assert(items@ =~= ws.skip(i + 1));
        let sha: Option<&str> = match &shas[i] {
            Some(x) => Some(x.as_str()),
            None => None,
        };
        let reason = clean_reason(&w, base_dir, facts, filter, now, sha);
        assert(rs[i as int] == clean_reason_spec(ws[i as int], base_dir@, *facts, *filter, now, match shas@[i as int] {
            Some(s) => Some(s@),
            None => None,
        }));
        match reason {
            Some(r) => {
                let ghost w0 = w;
                w.reason = r;
                assert(same_but_reason(w, w0));
                out.push(w);
                assert(kept(rs.take(i + 1)) == before.push((i as int, r@)));
            },
            None => {
                assert(kept(rs.take(i + 1)) == before);
            },
        }
        i = i + 1;
    }
    assert(rs.take(n as int) =~= rs);
    out
}


/// The line `wt clean` shows for a worktree it is about to remove.
pub open spec fn clean_line_spec(name: Seq<char>, reason: Seq<char>, created: Seq<char>) -> Seq<char> {
    name + " (reason: "@ + reason + ", created: "@ + created + ")"@
}

pub fn clean_line(name: &str, reason: &str, created: &str) -> (r: String)
    ensures
        r@ == clean_line_spec(name@, reason@, created@),
{
    let mut s = String::from_str(name);
    s.append(" (reason: ");
    s.append(reason);
    s.append(", created: ");
    s.append(created);
    s.append(")");
    s
}


/// Law: whatever the filter, `wt clean` never picks a worktree with uncommitted changes,
/// nor the repository itself or one of its aliases.
pub proof fn lemma_clean_only_clean_worktrees(
    w: WorktreeInfo,
    base_dir: Seq<char>,
    f: CleanFacts,
    filter: CleanFilter,
    now: Timestamp,
    branch_sha: Option<Seq<char>>,
)
    ensures
        !w.is_clean ==> clean_reason_spec(w, base_dir, f, filter, now, branch_sha) is None,
        path_equal(w.path@, base_dir) ==> clean_reason_spec(w, base_dir, f, filter, now, branch_sha) is None,
        forall|i: int| 0 <= i < f.aliases.len() && path_equal(w.path@, #[trigger] f.aliases@[i]@)
            ==> clean_reason_spec(w, base_dir, f, filter, now, branch_sha) is None,
{
}

} // verus!
