use vstd::prelude::*;
use crate::config::owned;
use crate::text::{chars_of, eq_ignore_ascii_case, eq_ignore_ascii_case_chars, lines, split_lines, starts_with, string_of, string_views, strip_prefix, strip_prefix_chars, text_eq, trim, trim_chars, trim_end_chars, rtrim, views};

verus! {

/// What a finished command reported.
pub struct CmdResult {
    pub stdout: String,
    pub stderr: String,
    pub status: i32,
}

/// A command before it runs: the command, with `--git-dir=<dir>` put after `git`
/// when a global git directory applies and the command names none itself.
/// `None` for an empty command.
pub open spec fn prepared_spec(cmd: Seq<Seq<char>>, git_dir: Option<Seq<char>>, apply: bool) -> Option<
    Seq<Seq<char>>,
> {
    if cmd.len() == 0 {
        None
    } else if apply && cmd[0] == "git"@ && git_dir is Some && !(exists|i: int|
        0 <= i < cmd.len() && (cmd[i] == "--git-dir"@ || starts_with(cmd[i], "--git-dir="@))) {
        Some(seq!["git"@, "--git-dir="@ + git_dir->0] + cmd.drop_first())
    } else {
        Some(cmd)
    }
}

/// The final argument vector of a command.
pub fn prepare_command(cmd: &Vec<String>, git_dir: Option<&str>, apply: bool) -> (r: Option<
    Vec<String>,
>)
    ensures
        match r {
            Some(v) => prepared_spec(string_views(cmd@), match git_dir {
                Some(d) => Some(d@),
                None => None,
            }, apply) == Some(string_views(v@)),
            None => cmd.len() == 0,
        },
{
    let ghost cv = string_views(cmd@);
    let ghost gd = match git_dir {
        Some(d) => Some(d@),
        None => None,
    };
    if cmd.len() == 0 {
        return None;
    }
    let mut names_dir = false;
    let flag = chars_of("--git-dir");
    let flag_eq = chars_of("--git-dir=");
    for i in 0..cmd.len()
        invariant
            cv == string_views(cmd@),
            flag@ == "--git-dir"@,
            flag_eq@ == "--git-dir="@,
            names_dir == (exists|k: int|
                0 <= k < i && (cv[k] == "--git-dir"@ || starts_with(cv[k], "--git-dir="@))),
    {
        let a = chars_of(cmd[i].as_str());
        assert(a@ == cv[i as int]);
        if crate::text::chars_eq(&a, &flag) || crate::text::starts_with_chars(&a, &flag_eq) {
            names_dir = true;
        }
    }
    let is_git = crate::text::str_eq(cmd[0].as_str(), "git");
    match git_dir {
        Some(d) => {
            if apply && is_git && !names_dir {
                let mut out: Vec<String> = Vec::new();
                out.push(owned("git"));
                let mut g = owned("--git-dir=");
                g.append(d);
                out.push(g);
                let ghost out0 = out@;
                for i in 1..cmd.len()
                    invariant
                        cv == string_views(cmd@),
                        out.len() == i + 1,
                        out@.take(2) == out0,
                        forall|k: int| 2 <= k < out.len() ==> #[trigger] out@[k]@ == cv[k - 1],
                {
                    out.push(cmd[i].clone());
                    assert(out@.take(2) =~= out0);
                }
                assert(string_views(out@) =~= seq!["git"@, "--git-dir="@ + d@] + cv.drop_first()) by {
                    assert(out@[0] == out0[0]);
                    assert(out@[1] == out0[1]);
                }
                return Some(out);
            }
        },
        None => {},
    }
    let out = cmd.clone();
    assert(string_views(out@) =~= cv);
    Some(out)
}

/// A command run with `check`: the error text when a checked command failed.
pub fn check_failure(result: &CmdResult, check: bool) -> (r: Option<String>)
    ensures
        match r {
            Some(m) => check && result.status != 0 && m@ == rtrim(result.stderr@),
            None => !(check && result.status != 0),
        },
{
    if check && result.status != 0 {
        Some(string_of(&trim_end_chars(&chars_of(result.stderr.as_str()))))
    } else {
        None
    }
}

/// `is_bare_repository`, from what `git rev-parse --is-bare-repository` reported.
pub fn is_bare_repository(result: &CmdResult) -> (r: bool)
    ensures
        r == (result.status == 0 && eq_ignore_ascii_case(trim(result.stdout@), "true"@)),
{
    if result.status != 0 {
        return false;
    }
    let t = trim_chars(&chars_of(result.stdout.as_str()));
    eq_ignore_ascii_case_chars(&t, &chars_of("true"))
}

/// A worktree as `git worktree list --porcelain` lists it.
pub struct WorktreeEntry {
    pub path: String,
    pub branch: Option<String>,
    pub is_bare: bool,
}

/// The model of a listed worktree.
pub struct EntrySpec {
    pub path: Seq<char>,
    pub branch: Option<Seq<char>>,
    pub is_bare: bool,
}

pub open spec fn opt_view(o: Option<String>) -> Option<Seq<char>> {
    match o {
        Some(s) => Some(s@),
        None => None,
    }
}

pub open spec fn entry_view(e: WorktreeEntry) -> EntrySpec {
    EntrySpec { path: e.path@, branch: opt_view(e.branch), is_bare: e.is_bare }
}

pub open spec fn entry_views(v: Seq<WorktreeEntry>) -> Seq<EntrySpec> {
    Seq::new(v.len(), |i: int| entry_view(v[i]))
}

/// The state of the porcelain reader: entries so far, then the pending path, branch and
/// bare flag.
pub type EntriesState = (Seq<EntrySpec>, Option<Seq<char>>, Option<Seq<char>>, bool);

/// A branch line's ref as a short branch name.
pub open spec fn short_branch(rest: Seq<char>) -> Seq<char> {
    match strip_prefix(rest, "refs/heads/"@) {
        Some(b) => b,
        None => rest,
    }
}

/// One line of porcelain output: a blank line ends the pending entry (when it has a path),
/// `worktree ` sets the path, `branch ` the branch, and a `bare` line marks it bare.
pub open spec fn entries_step(st: EntriesState, line: Seq<char>) -> EntriesState {
    let (es, path, branch, bare) = st;
    if line.len() == 0 {
        match path {
            Some(p) => (es.push(EntrySpec { path: p, branch: branch, is_bare: bare }), None, None, false),
            None => st,
        }
    } else if starts_with(line, "worktree "@) {
        (es, strip_prefix(line, "worktree "@), branch, bare)
    } else if starts_with(line, "branch "@) {
        (es, path, Some(short_branch(line.skip(7))), bare)
    } else if trim(line) == "bare"@ {
        (es, path, branch, true)
    } else {
        st
    }
}

pub open spec fn entries_fold(ls: Seq<Seq<char>>, st: EntriesState) -> EntriesState
    decreases ls.len(),
{
    if ls.len() == 0 {
        st
    } else {
        entries_fold(ls.drop_first(), entries_step(st, ls[0]))
    }
}

/// `get_worktree_entries`: the entries of porcelain output, read line by line with a
/// blank line added at the end.
pub open spec fn entries_spec(stdout: Seq<char>) -> Seq<EntrySpec> {
    entries_fold(lines(stdout).push(seq![]), (seq![], None, None, false)).0
}

fn short_branch_exec(rest: &Vec<char>) -> (r: String)
    ensures
        r@ == short_branch(rest@),
{
    match strip_prefix_chars(rest, &chars_of("refs/heads/")) {
        Some(b) => string_of(&b),
        None => string_of(rest),
    }
}

/// `get_worktree_entries`, from the output of `git worktree list --porcelain`.
pub fn get_worktree_entries(stdout: &str) -> (r: Vec<WorktreeEntry>)
    ensures
        entry_views(r@) == entries_spec(stdout@),
{
    let mut ls = split_lines(&chars_of(stdout));
    ls.push(Vec::new());
    let ghost lv = views(ls@);
    assert(lv =~= lines(stdout@).push(seq![]));
    let mut entries: Vec<WorktreeEntry> = Vec::new();
    let mut path: Option<String> = None;
    let mut branch: Option<String> = None;
    let mut is_bare = false;
    let wt = chars_of("worktree ");
    let br = chars_of("branch ");
    assert(lv.skip(0) =~= lv);
    assert(entry_views(entries@) =~= Seq::<EntrySpec>::empty());
    for i in 0..ls.len()
        invariant
            lv == views(ls@),
            wt@ == "worktree "@,
            br@ == "branch "@,
            entries_spec(stdout@) == entries_fold(
                lv.skip(i as int),
                (entry_views(entries@), opt_view(path), opt_view(branch), is_bare),
            ).0,
    {
        assert(lv.skip(i as int).drop_first() =~= lv.skip(i + 1));
        let line = &ls[i];
        assert(lv.skip(i as int)[0] == line@);
        let ghost st = (entry_views(entries@), opt_view(path), opt_view(branch), is_bare);
        let ghost st2 = entries_step(st, line@);
        if line.len() == 0 {
            if path.is_some() {
                let p = path.unwrap();
                let ghost e0 = entries@;
                entries.push(WorktreeEntry { path: p, branch: branch, is_bare: is_bare });
                assert(entry_views(entries@) =~= entry_views(e0).push(
                    EntrySpec { path: p@, branch: st.2, is_bare: st.3 },
                ));
                path = None;
                branch = None;
                is_bare = false;
            }
        } else {
            match strip_prefix_chars(line, &wt) {
                Some(rest) => {
                    path = Some(string_of(&rest));
                },
                None => {
                    if crate::text::starts_with_chars(line, &br) {
                        proof {
                            reveal_strlit("branch ");
                        }
                        let rest = crate::text::skip_chars(line, 7);
                        branch = Some(short_branch_exec(&rest));
                    } else if text_eq(&trim_chars(line), "bare") {
                        is_bare = true;
                    }
                },
            }
        }
        assert((entry_views(entries@), opt_view(path), opt_view(branch), is_bare) == st2);
    }
    assert(lv.skip(ls.len() as int) =~= Seq::<Seq<char>>::empty());
    entries
}

} // verus!

verus! {

/// A worktree with what `wt list` shows of it.
pub struct WorktreeInfo {
    pub path: String,
    pub head: Option<String>,
    pub branch: String,
    pub created: Option<crate::clock::Timestamp>,
    pub last_commit: Option<crate::clock::Timestamp>,
    pub is_clean: bool,
    pub has_untracked: bool,
    pub insertions: usize,
    pub deletions: usize,
    pub pr_info: String,
    pub reason: String,
    pub missing: bool,
}

/// The model of a listed worktree: path, head and branch.
pub struct InfoSpec {
    pub path: Seq<char>,
    pub head: Option<Seq<char>>,
    pub branch: Seq<char>,
}

pub open spec fn info_view(w: WorktreeInfo) -> InfoSpec {
    InfoSpec { path: w.path@, head: opt_view(w.head), branch: w.branch@ }
}

pub open spec fn info_views(v: Seq<WorktreeInfo>) -> Seq<InfoSpec> {
    Seq::new(v.len(), |i: int| info_view(v[i]))
}

/// A freshly listed worktree: nothing known of it beyond the porcelain output.
pub open spec fn info_is_fresh(w: WorktreeInfo) -> bool {
    &&& w.created is None
    &&& w.last_commit is None
    &&& !w.is_clean
    &&& !w.has_untracked
    &&& w.insertions == 0
    &&& w.deletions == 0
    &&& w.pr_info@.len() == 0
    &&& w.reason@.len() == 0
    &&& !w.missing
}

pub type InfoState = (Seq<InfoSpec>, Option<Seq<char>>, Option<Seq<char>>, Option<Seq<char>>);

/// One porcelain line as `wt list` reads it: a blank line ends the pending
/// worktree (its branch `N/A` if none was given), `HEAD ` gives the head, a `detached`
/// line makes the branch `DETACHED`.
pub open spec fn info_step(st: InfoState, line: Seq<char>) -> InfoState {
    let (ws, path, head, branch) = st;
    if line.len() == 0 {
        match path {
            Some(p) => (
                ws.push(
                    InfoSpec {
                        path: p,
                        head: head,
                        branch: match branch {
                            Some(b) => b,
                            None => "N/A"@,
                        },
                    },
                ),
                None,
                None,
                None,
            ),
            None => st,
        }
    } else if starts_with(line, "worktree "@) {
        (ws, strip_prefix(line, "worktree "@), head, branch)
    } else if starts_with(line, "HEAD "@) {
        (ws, path, strip_prefix(line, "HEAD "@), branch)
    } else if starts_with(line, "branch "@) {
        (ws, path, head, Some(short_branch(line.skip(7))))
    } else if starts_with(line, "detached"@) {
        (ws, path, head, Some("DETACHED"@))
    } else {
        st
    }
}

pub open spec fn info_fold(ls: Seq<Seq<char>>, st: InfoState) -> InfoState
    decreases ls.len(),
{
    if ls.len() == 0 {
        st
    } else {
        info_fold(ls.drop_first(), info_step(st, ls[0]))
    }
}

/// The worktrees read from porcelain output.
pub open spec fn infos_spec(stdout: Seq<char>) -> Seq<InfoSpec> {
    info_fold(lines(stdout).push(seq![]), (seq![], None, None, None)).0
}

fn fresh_info(path: String, head: Option<String>, branch: String) -> (r: WorktreeInfo)
    ensures
        info_view(r) == (InfoSpec { path: path@, head: opt_view(head), branch: branch@ }),
        info_is_fresh(r),
{
    WorktreeInfo {
        path,
        head,
        branch,
        created: None,
        last_commit: None,
        is_clean: false,
        has_untracked: false,
        insertions: 0,
        deletions: 0,
        pr_info: String::new(),
        reason: String::new(),
        missing: false,
    }
}

/// The first part of gathering worktree details: the worktrees that the output of
/// `git worktree list --porcelain` lists, before anything else is learned of them.
pub fn parse_worktree_info(stdout: &str) -> (r: Vec<WorktreeInfo>)
    ensures
        info_views(r@) == infos_spec(stdout@),
        forall|i: int| 0 <= i < r.len() ==> info_is_fresh(#[trigger] r@[i]),
{
    let mut ls = split_lines(&chars_of(stdout));
    ls.push(Vec::new());
    let ghost lv = views(ls@);
    assert(lv =~= lines(stdout@).push(seq![]));
    let mut infos: Vec<WorktreeInfo> = Vec::new();
    let mut path: Option<String> = None;
    let mut head: Option<String> = None;
    let mut branch: Option<String> = None;
    let wt = chars_of("worktree ");
    let hd = chars_of("HEAD ");
    let br = chars_of("branch ");
    let dt = chars_of("detached");
    assert(lv.skip(0) =~= lv);
    assert(info_views(infos@) =~= Seq::<InfoSpec>::empty());
    for i in 0..ls.len()
        invariant
            lv == views(ls@),
            wt@ == "worktree "@,
            hd@ == "HEAD "@,
            br@ == "branch "@,
            dt@ == "detached"@,
            infos_spec(stdout@) == info_fold(
                lv.skip(i as int),
                (info_views(infos@), opt_view(path), opt_view(head), opt_view(branch)),
            ).0,
            forall|k: int| 0 <= k < infos.len() ==> info_is_fresh(#[trigger] infos@[k]),
    {
        assert(lv.skip(i as int).drop_first() =~= lv.skip(i + 1));
        let line = &ls[i];
        assert(lv.skip(i as int)[0] == line@);
        let ghost st = (info_views(infos@), opt_view(path), opt_view(head), opt_view(branch));
        let ghost st2 = info_step(st, line@);
        if line.len() == 0 {
            if path.is_some() {
                let p = path.unwrap();
                let b = match branch {
                    Some(b) => b,
                    None => owned("N/A"),
                };
                let ghost i0 = infos@;
                let info = fresh_info(p, head, b);
                infos.push(info);
                assert(info_views(infos@) =~= info_views(i0).push(info_view(info)));
                path = None;
                head = None;
                branch = None;
            }
        } else if let Some(rest) = strip_prefix_chars(line, &wt) {
            path = Some(string_of(&rest));
        } else if let Some(rest) = strip_prefix_chars(line, &hd) {
            head = Some(string_of(&rest));
        } else if crate::text::starts_with_chars(line, &br) {
            proof {
                reveal_strlit("branch ");
            }
            let rest = crate::text::skip_chars(line, 7);
            branch = Some(short_branch_exec(&rest));
        } else if crate::text::starts_with_chars(line, &dt) {
            branch = Some(owned("DETACHED"));
        }
        assert((info_views(infos@), opt_view(path), opt_view(head), opt_view(branch)) == st2);
    }
    assert(lv.skip(ls.len() as int) =~= Seq::<Seq<char>>::empty());
    infos
}

} // verus!

verus! {

/// A step of a probe that asks git one question after another: the next command to
/// run, or the answer.
pub enum Probe {
    Run(Vec<String>),
    Done(Option<String>),
}

/// The model of a probe step.
pub enum ProbeSpec {
    Run(Seq<Seq<char>>),
    Done(Option<Seq<char>>),
}

pub open spec fn probe_view(p: Probe) -> ProbeSpec {
    match p {
        Probe::Run(cmd) => ProbeSpec::Run(string_views(cmd@)),
        Probe::Done(a) => ProbeSpec::Done(opt_view(a)),
    }
}

/// The questions `get_default_branch` asks, in order.
pub open spec fn default_branch_command(k: int) -> Seq<Seq<char>> {
    if k == 0 {
        seq!["git"@, "rev-parse"@, "--abbrev-ref"@, "origin/HEAD"@]
    } else if k == 1 {
        seq!["git"@, "rev-parse"@, "--verify"@, "main"@]
    } else if k == 2 {
        seq!["git"@, "rev-parse"@, "--verify"@, "master"@]
    } else {
        seq!["git"@, "rev-parse"@, "--abbrev-ref"@, "HEAD"@]
    }
}

/// What the answer to question `k` decides: the remote's default branch (without
/// `origin/`), `main`, `master`, or the current branch; `None` if it decides nothing.
pub open spec fn default_branch_answer(k: int, r: CmdResult) -> Option<Option<Seq<char>>> {
    let out = trim(r.stdout@);
    if k == 0 {
        if r.status == 0 && out.len() > 0 {
            Some(Some(crate::text::strip_all_prefix(out, "origin/"@)))
        } else {
            None
        }
    } else if k == 1 {
        if r.status == 0 {
            Some(Some("main"@))
        } else {
            None
        }
    } else if k == 2 {
        if r.status == 0 {
            Some(Some("master"@))
        } else {
            None
        }
    } else if r.status == 0 && out.len() > 0 {
        Some(Some(out))
    } else {
        Some(None)
    }
}

/// The first decision among the answers from `k` on.
pub open spec fn default_branch_from(rs: Seq<CmdResult>, k: int) -> Option<Option<Seq<char>>>
    decreases rs.len() - k,
{
    if k < 0 || k >= rs.len() {
        None
    } else {
        match default_branch_answer(k, rs[k]) {
            Some(a) => Some(a),
            None => default_branch_from(rs, k + 1),
        }
    }
}

/// `get_default_branch`: decided by the first answer that decides, else the next question.
pub open spec fn default_branch_probe(rs: Seq<CmdResult>) -> ProbeSpec {
    match default_branch_from(rs, 0) {
        Some(a) => ProbeSpec::Done(a),
        None => if rs.len() < 4 {
            ProbeSpec::Run(default_branch_command(rs.len() as int))
        } else {
            ProbeSpec::Done(None)
        },
    }
}

fn words_vec(a: &str, b: &str, c: &str, d: &str) -> (r: Vec<String>)
    ensures
        string_views(r@) == seq![a@, b@, c@, d@],
{
    let mut v: Vec<String> = Vec::new();
    v.push(owned(a));
    v.push(owned(b));
    v.push(owned(c));
    v.push(owned(d));
    assert(string_views(v@) =~= seq![a@, b@, c@, d@]);
    v
}

fn default_branch_answer_exec(k: usize, r: &CmdResult) -> (a: Option<Option<String>>)
    ensures
        match a {
            Some(x) => default_branch_answer(k as int, *r) == Some(opt_view(x)),
            None => default_branch_answer(k as int, *r) is None,
        },
{
    let out = trim_chars(&chars_of(r.stdout.as_str()));
    if k == 0 {
        if r.status == 0 && out.len() > 0 {
            let s = crate::text::strip_all_prefix_chars(&out, &chars_of("origin/"));
            Some(Some(string_of(&s)))
        } else {
            None
        }
    } else if k == 1 {
        if r.status == 0 {
            Some(Some(owned("main")))
        } else {
            None
        }
    } else if k == 2 {
        if r.status == 0 {
            Some(Some(owned("master")))
        } else {
            None
        }
    } else if r.status == 0 && out.len() > 0 {
        Some(Some(string_of(&out)))
    } else {
        Some(None)
    }
}

/// `get_default_branch` as a probe: given the answers to the questions asked so far (in
/// order), the branch, or the next question to ask.
pub fn get_default_branch(results: &Vec<CmdResult>) -> (p: Probe)
    ensures
        probe_view(p) == default_branch_probe(results@),
{
    let mut k: usize = 0;
    while k < results.len()
        invariant
            k <= results.len(),
            default_branch_from(results@, 0) == default_branch_from(results@, k as int),
        decreases results.len() - k,
    {
        match default_branch_answer_exec(k, &results[k]) {
            Some(a) => {
                return Probe::Done(a);
            },
            None => {},
        }
        k = k + 1;
    }
    let n = results.len();
    if n == 0 {
        Probe::Run(words_vec("git", "rev-parse", "--abbrev-ref", "origin/HEAD"))
    } else if n == 1 {
        Probe::Run(words_vec("git", "rev-parse", "--verify", "main"))
    } else if n == 2 {
        Probe::Run(words_vec("git", "rev-parse", "--verify", "master"))
    } else if n == 3 {
        Probe::Run(words_vec("git", "rev-parse", "--abbrev-ref", "HEAD"))
    } else {
        Probe::Done(None)
    }
}

/// The questions `get_default_branch_for_bare_git_dir` asks the bare repository `dir`.
pub open spec fn bare_branch_command(dir: Seq<char>, k: int) -> Seq<Seq<char>> {
    let g = "--git-dir="@ + dir;
    if k == 0 {
        seq!["git"@, g, "symbolic-ref"@, "refs/remotes/origin/HEAD"@]
    } else if k == 1 {
        seq!["git"@, g, "show-ref"@, "--verify"@, "refs/heads/main"@]
    } else if k == 2 {
        seq!["git"@, g, "show-ref"@, "--verify"@, "refs/heads/master"@]
    } else {
        seq!["git"@, g, "symbolic-ref"@, "HEAD"@]
    }
}

/// What answer `k` of the bare-repository probe decides: the last part of the remote's
/// HEAD ref, `main`, `master`, or the branch HEAD points to.
pub open spec fn bare_branch_answer(k: int, r: CmdResult) -> Option<Option<Seq<char>>> {
    let out = trim(r.stdout@);
    if k == 0 {
        if r.status == 0 && out.len() > 0 {
            Some(Some(crate::text::after_last(out, '/')))
        } else {
            None
        }
    } else if k == 1 {
        if r.status == 0 {
            Some(Some("main"@))
        } else {
            None
        }
    } else if k == 2 {
        if r.status == 0 {
            Some(Some("master"@))
        } else {
            None
        }
    } else if r.status == 0 {
        Some(strip_prefix(out, "refs/heads/"@))
    } else {
        Some(None)
    }
}

pub open spec fn bare_branch_from(rs: Seq<CmdResult>, k: int) -> Option<Option<Seq<char>>>
    decreases rs.len() - k,
{
    if k < 0 || k >= rs.len() {
        None
    } else {
        match bare_branch_answer(k, rs[k]) {
            Some(a) => Some(a),
            None => bare_branch_from(rs, k + 1),
        }
    }
}

/// `get_default_branch_for_bare_git_dir` as a probe.
pub open spec fn bare_branch_probe(dir: Seq<char>, rs: Seq<CmdResult>) -> ProbeSpec {
    match bare_branch_from(rs, 0) {
        Some(a) => ProbeSpec::Done(a),
        None => if rs.len() < 4 {
            ProbeSpec::Run(bare_branch_command(dir, rs.len() as int))
        } else {
            ProbeSpec::Done(None)
        },
    }
}

fn bare_branch_answer_exec(k: usize, r: &CmdResult) -> (a: Option<Option<String>>)
    ensures
        match a {
            Some(x) => bare_branch_answer(k as int, *r) == Some(opt_view(x)),
            None => bare_branch_answer(k as int, *r) is None,
        },
{
    let out = trim_chars(&chars_of(r.stdout.as_str()));
    if k == 0 {
        if r.status == 0 && out.len() > 0 {
            Some(Some(string_of(&crate::text::after_last_chars(&out, '/'))))
        } else {
            None
        }
    } else if k == 1 {
        if r.status == 0 {
            Some(Some(owned("main")))
        } else {
            None
        }
    } else if k == 2 {
        if r.status == 0 {
            Some(Some(owned("master")))
        } else {
            None
        }
    } else if r.status == 0 {
        match strip_prefix_chars(&out, &chars_of("refs/heads/")) {
            Some(b) => Some(Some(string_of(&b))),
            None => Some(None),
        }
    } else {
        Some(None)
    }
}

/// `get_default_branch_for_bare_git_dir` as a probe of the bare repository `git_dir`.
pub fn get_default_branch_for_bare_git_dir(git_dir: &str, results: &Vec<CmdResult>) -> (p: Probe)
    ensures
        probe_view(p) == bare_branch_probe(git_dir@, results@),
{
    let mut k: usize = 0;
    while k < results.len()
        invariant
            k <= results.len(),
            bare_branch_from(results@, 0) == bare_branch_from(results@, k as int),
        decreases results.len() - k,
    {
        match bare_branch_answer_exec(k, &results[k]) {
            Some(a) => {
                return Probe::Done(a);
            },
            None => {},
        }
        k = k + 1;
    }
    let mut g = owned("--git-dir=");
    g.append(git_dir);
    let n = results.len();
    let mut v: Vec<String> = Vec::new();
    v.push(owned("git"));
    v.push(g);
    if n == 0 {
        v.push(owned("symbolic-ref"));
        v.push(owned("refs/remotes/origin/HEAD"));
    } else if n == 1 || n == 2 {
        v.push(owned("show-ref"));
        v.push(owned("--verify"));
        if n == 1 {
            v.push(owned("refs/heads/main"));
        } else {
            v.push(owned("refs/heads/master"));
        }
    } else if n == 3 {
        v.push(owned("symbolic-ref"));
        v.push(owned("HEAD"));
    } else {
        return Probe::Done(None);
    }
    assert(string_views(v@) =~= bare_branch_command(git_dir@, n as int));
    Probe::Run(v)
}

} // verus!

verus! {

/// `parse_shortstat_count`: the number just before the first word that begins with
/// `label` and follows a number.
pub open spec fn shortstat_from(ws: Seq<Seq<char>>, label: Seq<char>, i: int) -> usize
    decreases ws.len() - i,
{
    if i < 0 || i + 1 >= ws.len() {
        0
    } else if starts_with(ws[i + 1], label) && crate::text::parse_usize_spec(ws[i]) is Some {
        crate::text::parse_usize_spec(ws[i])->0
    } else {
        shortstat_from(ws, label, i + 1)
    }
}

/// `parse_shortstat_count` (as in `3 files changed, 10 insertions(+), 2 deletions(-)`).
pub fn parse_shortstat_count(text: &str, label: &str) -> (r: usize)
    ensures
        r == shortstat_from(crate::text::words(text@), label@, 0),
{
    let ws = crate::text::split_words(&chars_of(text));
    let ghost wv = views(ws@);
    let lc = chars_of(label);
    if ws.len() < 2 {
        return 0;
    }
    let mut i: usize = 0;
    while i + 1 < ws.len()
        invariant
            ws.len() >= 2,
            i + 1 <= ws.len(),
            wv == views(ws@),
            wv == crate::text::words(text@),
            lc@ == label@,
            shortstat_from(wv, label@, 0) == shortstat_from(wv, label@, i as int),
        decreases ws.len() - i,
    {
        if crate::text::starts_with_chars(&ws[i + 1], &lc) {
            match crate::text::parse_usize(&ws[i]) {
                Some(v) => {
                    return v;
                },
                None => {},
            }
        }
        i = i + 1;
    }
    0
}

/// A line of `git branch --merged` as a branch name: trimmed, without a `* ` or `+ ` mark.
pub open spec fn merged_name(line: Seq<char>) -> Seq<char> {
    let l = trim(line);
    if starts_with(l, "* "@) || starts_with(l, "+ "@) {
        trim(l.skip(2))
    } else {
        l
    }
}

/// The non-empty branch names of `git branch --merged` lines.
pub open spec fn merged_names(ls: Seq<Seq<char>>) -> Seq<Seq<char>>
    decreases ls.len(),
{
    if ls.len() == 0 {
        seq![]
    } else {
        let rest = merged_names(ls.drop_last());
        let n = merged_name(ls.last());
        if n.len() > 0 {
            rest.push(n)
        } else {
            rest
        }
    }
}

/// The merged branches `resolve_clean_targets` reads from `git branch --merged`.
pub fn parse_merged_branches(stdout: &str) -> (r: Vec<String>)
    ensures
        string_views(r@) == merged_names(lines(stdout@)),
{
    let ls = split_lines(&chars_of(stdout));
    let ghost lv = views(ls@);
    let star = chars_of("* ");
    let plus = chars_of("+ ");
    let mut out: Vec<String> = Vec::new();
    assert(lv.take(0) =~= Seq::<Seq<char>>::empty());
    assert(string_views(out@) =~= Seq::<Seq<char>>::empty());
    for i in 0..ls.len()
        invariant
            lv == views(ls@),
            lv == lines(stdout@),
            star@ == "* "@,
            plus@ == "+ "@,
            string_views(out@) == merged_names(lv.take(i as int)),
    {
        let l = trim_chars(&ls[i]);
        let name = if crate::text::starts_with_chars(&l, &star) || crate::text::starts_with_chars(
            &l,
            &plus,
        ) {
            proof {
                reveal_strlit("* ");
                reveal_strlit("+ ");
            }
            trim_chars(&crate::text::skip_chars(&l, 2))
        } else {
            l
        };
        assert(lv.take(i + 1).drop_last() =~= lv.take(i as int));
        assert(lv.take(i + 1).last() == ls@[i as int]@);
        if name.len() > 0 {
            let ghost o0 = out@;
            out.push(string_of(&name));
            assert(string_views(out@) =~= string_views(o0).push(name@));
        }
    }
    assert(lv.take(ls.len() as int) =~= lv);
    out
}

/// The output of `git remote` names the remote `name`.
pub fn has_remote(stdout: &str, name: &str) -> (r: bool)
    ensures
        r == (exists|i: int|
            0 <= i < crate::text::words(stdout@).len() && crate::text::words(stdout@)[i] == name@),
{
    let ws = crate::text::split_words(&chars_of(stdout));
    let ghost wv = views(ws@);
    let nc = chars_of(name);
    for i in 0..ws.len()
        invariant
            wv == views(ws@),
            wv == crate::text::words(stdout@),
            nc@ == name@,
            forall|k: int| 0 <= k < i ==> #[trigger] wv[k] != name@,
    {
        if crate::text::chars_eq(&ws[i], &nc) {
            assert(wv[i as int] == name@);
            return true;
        }
    }
    false
}

/// The first white-space separated word of `s`, or nothing.
pub fn first_word(s: &str) -> (r: String)
    ensures
        r@ == (if crate::text::words(s@).len() > 0 {
            crate::text::words(s@)[0]
        } else {
            seq![]
        }),
{
    let ws = crate::text::split_words(&chars_of(s));
    if ws.len() > 0 {
        string_of(&ws[0])
    } else {
        String::new()
    }
}


/// What `git status --porcelain` tells of a worktree: clean when it succeeded and printed
/// nothing but blanks; untracked files when its output holds `??`.
pub fn status_flags(status: &CmdResult) -> (r: (bool, bool))
    ensures
        r.0 == (status.status == 0 && trim(status.stdout@).len() == 0),
        r.1 == crate::text::contains(status.stdout@, "??"@),
{
    let c = chars_of(status.stdout.as_str());
    let clean = status.status == 0 && trim_chars(&c).len() == 0;
    let untracked = crate::text::contains_chars(&c, &chars_of("??"));
    (clean, untracked)
}

} // verus!
