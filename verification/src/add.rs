use vstd::prelude::*;
use crate::config::owned;
use crate::git::{CmdResult, has_remote, opt_view};
use crate::messages::{fatal_error, m0, m1, m2, msg_spec};
use crate::text::{chars_of, find_chars, find_pat, rtrim, string_of, string_views, trim, trim_chars, trim_end_chars, words};
use crate::words::{cat, v2, v3, v4, v5, v7, v8};

verus! {

/// What adding a worktree was asked for: its name, the branch to check out (if any),
/// the start point of a new branch named like the worktree (if any), the path of the
/// new worktree, and the language of the messages.
pub struct AddRequest {
    pub work_name: String,
    pub branch: Option<String>,
    pub new_branch_base: Option<String>,
    pub worktree_path: String,
    pub japanese: bool,
}

/// Where adding a worktree stands: the command whose result comes next.
pub enum AddState {
    /// `git fetch --all`
    Fetching,
    /// `git rev-parse --abbrev-ref HEAD`
    ReadingHead,
    /// `git rev-parse --verify origin/<branch>` for the current branch
    CheckingUpstream(String),
    /// `git pull origin <branch>`
    Pulling,
    /// `git remote`, for a branch given as `<remote>/<name>`
    ListingRemotes,
    /// `git rev-parse --verify <name>` for the local part of such a branch
    CheckingShort,
    /// `git rev-parse --verify <worktree name>`
    CheckingLocal,
    /// `git rev-parse --verify origin/<worktree name>`, and whether the local branch exists
    CheckingRemote(bool),
    /// `git symbolic-ref refs/remotes/origin/HEAD --short`
    ReadingOriginHead,
    /// `git rev-parse --verify` of the default-branch candidate with this index
    CheckingCandidate(usize),
    /// `git rev-parse --abbrev-ref HEAD`, the last way to find a start point
    ReadingHeadFallback,
    /// `git worktree add ...` for the branch with this name
    Creating(String),
}

/// The next thing to do: print the notes to standard error and run the command, then
/// hand its result to the step from `next`; or stop with a failure text (a whole line or
/// raw text) and exit status 1; or finish, the worktree made for `branch`.
pub enum AddStep {
    Run { next: AddState, cmd: Vec<String>, notes: Vec<String> },
    Fail { text: String, line: bool },
    Done { branch: String },
}

/// The model of `AddState`.
pub enum AddPhase {
    Fetching,
    ReadingHead,
    CheckingUpstream(Seq<char>),
    Pulling,
    ListingRemotes,
    CheckingShort,
    CheckingLocal,
    CheckingRemote(bool),
    ReadingOriginHead,
    CheckingCandidate(int),
    ReadingHeadFallback,
    Creating(Seq<char>),
}

/// The model of `AddStep`.
pub enum AddStepSpec {
    Run(AddPhase, Seq<Seq<char>>, Seq<Seq<char>>),
    Fail(Seq<char>, bool),
    Done(Seq<char>),
}

pub open spec fn phase_of(s: AddState) -> AddPhase {
    match s {
        AddState::Fetching => AddPhase::Fetching,
        AddState::ReadingHead => AddPhase::ReadingHead,
        AddState::CheckingUpstream(b) => AddPhase::CheckingUpstream(b@),
        AddState::Pulling => AddPhase::Pulling,
        AddState::ListingRemotes => AddPhase::ListingRemotes,
        AddState::CheckingShort => AddPhase::CheckingShort,
        AddState::CheckingLocal => AddPhase::CheckingLocal,
        AddState::CheckingRemote(l) => AddPhase::CheckingRemote(l),
        AddState::ReadingOriginHead => AddPhase::ReadingOriginHead,
        AddState::CheckingCandidate(k) => AddPhase::CheckingCandidate(k as int),
        AddState::ReadingHeadFallback => AddPhase::ReadingHeadFallback,
        AddState::Creating(n) => AddPhase::Creating(n@),
    }
}

pub open spec fn step_view(s: AddStep) -> AddStepSpec {
    match s {
        AddStep::Run { next, cmd, notes } => AddStepSpec::Run(
            phase_of(next),
            string_views(cmd@),
            string_views(notes@),
        ),
        AddStep::Fail { text, line } => AddStepSpec::Fail(text@, line),
        AddStep::Done { branch } => AddStepSpec::Done(branch@),
    }
}

/// `git rev-parse --verify <r>`
pub open spec fn verify_cmd(r: Seq<char>) -> Seq<Seq<char>> {
    seq!["git"@, "rev-parse"@, "--verify"@, r]
}

/// `git worktree add <path> <branch>`: check out an existing branch.
pub open spec fn add_existing_cmd(path: Seq<char>, branch: Seq<char>) -> Seq<Seq<char>> {
    seq!["git"@, "worktree"@, "add"@, path, branch]
}

/// `git worktree add -b <name> <path> <start>`: a new branch from `start`.
pub open spec fn add_new_cmd(name: Seq<char>, path: Seq<char>, start: Seq<char>) -> Seq<Seq<char>> {
    seq!["git"@, "worktree"@, "add"@, "-b"@, name, path, start]
}

/// `git worktree add --no-track -b <name> <path> <start>`: a new branch from `start` that
/// does not take `start` as its upstream.
pub open spec fn add_untracked_cmd(name: Seq<char>, path: Seq<char>, start: Seq<char>) -> Seq<
    Seq<char>,
> {
    seq!["git"@, "worktree"@, "add"@, "--no-track"@, "-b"@, name, path, start]
}

/// The start points tried, in order, when no branch was named.
pub open spec fn candidate(k: int) -> Seq<char> {
    if k == 0 {
        "origin/main"@
    } else if k == 1 {
        "origin/master"@
    } else if k == 2 {
        "main"@
    } else {
        "master"@
    }
}

pub open spec fn creating_worktree_note(req: AddRequest) -> Seq<char> {
    msg_spec("creating_worktree"@, seq![req.worktree_path@], req.japanese)
}

pub open spec fn creating_branch_note(req: AddRequest, name: Seq<char>, start: Seq<char>) -> Seq<
    char,
> {
    msg_spec("creating_branch"@, seq![name, start], req.japanese)
}

/// The part of `<remote>/<name>` before the first `/`.
pub open spec fn remote_part(b: Seq<char>) -> Seq<char> {
    b.take(find_pat(b, seq!['/']))
}

/// The part of `<remote>/<name>` after the first `/`.
pub open spec fn local_part(b: Seq<char>) -> Seq<char> {
    b.skip(find_pat(b, seq!['/']) + 1)
}

/// The first step: fetch from every remote.
pub open spec fn add_start_spec(req: AddRequest) -> AddStepSpec {
    AddStepSpec::Run(
        AddPhase::Fetching,
        seq!["git"@, "fetch"@, "--all"@],
        seq![msg_spec("fetching"@, seq![], req.japanese)],
    )
}

/// Once the current branch is up to date: how the worktree gets its branch.
/// A new branch from a given start point; a branch named `<remote>/<name>` looked up
/// among the remotes; another named branch checked out as it is; or, with no branch
/// named, the worktree name looked up locally and on `origin`.
pub open spec fn begin_create(req: AddRequest) -> AddStepSpec {
    let work = req.work_name@;
    let path = req.worktree_path@;
    match req.new_branch_base {
        Some(start) => AddStepSpec::Run(
            AddPhase::Creating(work),
            add_new_cmd(work, path, start@),
            seq![creating_branch_note(req, work, start@)],
        ),
        None => match req.branch {
            Some(b) => if find_pat(b@, seq!['/']) >= 0 {
                AddStepSpec::Run(AddPhase::ListingRemotes, seq!["git"@, "remote"@], seq![])
            } else {
                AddStepSpec::Run(
                    AddPhase::Creating(b@),
                    add_existing_cmd(path, b@),
                    seq![creating_worktree_note(req)],
                )
            },
            None => AddStepSpec::Run(AddPhase::CheckingLocal, verify_cmd(work), seq![]),
        },
    }
}

/// A new branch named like the worktree from a start point that was found, not named.
pub open spec fn create_from_found(req: AddRequest, start: Seq<char>) -> AddStepSpec {
    let work = req.work_name@;
    AddStepSpec::Run(
        AddPhase::Creating(work),
        add_untracked_cmd(work, req.worktree_path@, start),
        seq![creating_branch_note(req, work, start)],
    )
}

/// The branch given as `<remote>/<name>` (or nothing when none was given).
pub open spec fn given_branch(req: AddRequest) -> Seq<char> {
    match req.branch {
        Some(b) => b@,
        None => seq![],
    }
}

/// The step after the command of `phase` reported `r`.
pub open spec fn add_next_spec(req: AddRequest, phase: AddPhase, r: CmdResult) -> AddStepSpec {
    let ok = r.status == 0;
    let out = trim(r.stdout@);
    let work = req.work_name@;
    let path = req.worktree_path@;
    let given = given_branch(req);
    match phase {
        AddPhase::Fetching => if ok {
            AddStepSpec::Run(
                AddPhase::ReadingHead,
                seq!["git"@, "rev-parse"@, "--abbrev-ref"@, "HEAD"@],
                seq![],
            )
        } else {
            AddStepSpec::Fail(msg_spec("error"@, seq![rtrim(r.stderr@)], req.japanese), true)
        },
        AddPhase::ReadingHead => if ok {
            AddStepSpec::Run(
                AddPhase::CheckingUpstream(out),
                verify_cmd("origin/"@ + out),
                seq![],
            )
        } else {
            begin_create(req)
        },
        AddPhase::CheckingUpstream(b) => if ok {
            AddStepSpec::Run(AddPhase::Pulling, seq!["git"@, "pull"@, "origin"@, b], seq![])
        } else {
            begin_create(req)
        },
        AddPhase::Pulling => begin_create(req),
        AddPhase::ListingRemotes => if find_pat(given, seq!['/']) >= 0 && ok && words(
            r.stdout@,
        ).contains(remote_part(given)) {
            AddStepSpec::Run(AddPhase::CheckingShort, verify_cmd(local_part(given)), seq![])
        } else {
            AddStepSpec::Run(
                AddPhase::Creating(given),
                add_existing_cmd(path, given),
                seq![creating_worktree_note(req)],
            )
        },
        AddPhase::CheckingShort => {
            let short = local_part(given);
            if !ok {
                AddStepSpec::Run(
                    AddPhase::Creating(short),
                    add_new_cmd(short, path, given),
                    seq![
                        creating_worktree_note(req),
                        "Creating tracking branch "@ + short + " for "@ + given + "..."@,
                    ],
                )
            } else {
                AddStepSpec::Run(
                    AddPhase::Creating(short),
                    add_existing_cmd(path, short),
                    seq![
                        creating_worktree_note(req),
                        "Local branch "@ + short + " already exists. Using it instead of "@
                            + given + "."@,
                    ],
                )
            }
        },
        AddPhase::CheckingLocal => AddStepSpec::Run(
            AddPhase::CheckingRemote(ok),
            verify_cmd("origin/"@ + work),
            seq![],
        ),
        AddPhase::CheckingRemote(local) => if local {
            AddStepSpec::Run(
                AddPhase::Creating(work),
                add_existing_cmd(path, work),
                seq![creating_worktree_note(req)],
            )
        } else if ok {
            AddStepSpec::Run(
                AddPhase::Creating(work),
                add_new_cmd(work, path, "origin/"@ + work),
                seq![
                    creating_worktree_note(req),
                    "Creating tracking branch "@ + work + " for origin/"@ + work + "..."@,
                ],
            )
        } else {
            AddStepSpec::Run(
                AddPhase::ReadingOriginHead,
                seq!["git"@, "symbolic-ref"@, "refs/remotes/origin/HEAD"@, "--short"@],
                seq![],
            )
        },
        AddPhase::ReadingOriginHead => if ok && out.len() > 0 {
            create_from_found(req, out)
        } else {
            AddStepSpec::Run(AddPhase::CheckingCandidate(0), verify_cmd(candidate(0)), seq![])
        },
        AddPhase::CheckingCandidate(k) => if ok {
            create_from_found(req, candidate(k))
        } else if 0 <= k < 3 {
            AddStepSpec::Run(
                AddPhase::CheckingCandidate(k + 1),
                verify_cmd(candidate(k + 1)),
                seq![],
            )
        } else {
            AddStepSpec::Run(
                AddPhase::ReadingHeadFallback,
                seq!["git"@, "rev-parse"@, "--abbrev-ref"@, "HEAD"@],
                seq![],
            )
        },
        AddPhase::ReadingHeadFallback => if ok && out.len() > 0 {
            create_from_found(req, out)
        } else {
            AddStepSpec::Fail(
                msg_spec(
                    "error"@,
                    seq![msg_spec("default_branch_not_found"@, seq![], req.japanese)],
                    req.japanese,
                ),
                true,
            )
        },
        AddPhase::Creating(name) => if ok {
            AddStepSpec::Done(name)
        } else {
            AddStepSpec::Fail(r.stderr@, false)
        },
    }
}

fn one_note(a: String) -> (r: Vec<String>)
    ensures
        string_views(r@) == seq![a@],
{
    let mut v: Vec<String> = Vec::new();
    v.push(a);
    assert(string_views(v@) =~= seq![a@]);
    v
}

fn two_notes(a: String, b: String) -> (r: Vec<String>)
    ensures
        string_views(r@) == seq![a@, b@],
{
    let mut v: Vec<String> = Vec::new();
    v.push(a);
    v.push(b);
    assert(string_views(v@) =~= seq![a@, b@]);
    v
}

fn no_notes() -> (r: Vec<String>)
    ensures
        string_views(r@) == Seq::<Seq<char>>::empty(),
{
    let v: Vec<String> = Vec::new();
    assert(string_views(v@) =~= Seq::<Seq<char>>::empty());
    v
}

/// The note `Creating worktree ...` for this request.
fn worktree_note(req: &AddRequest) -> (r: String)
    ensures
        r@ == creating_worktree_note(*req),
{
    m1("creating_worktree", req.worktree_path.as_str(), req.japanese)
}

/// The first step of adding a worktree.
pub fn add_worktree_start(req: &AddRequest) -> (s: AddStep)
    ensures
        step_view(s) == add_start_spec(*req),
{
    AddStep::Run {
        next: AddState::Fetching,
        cmd: v3("git", "fetch", "--all"),
        notes: one_note(m0("fetching", req.japanese)),
    }
}

fn begin_create_exec(req: &AddRequest) -> (s: AddStep)
    ensures
        step_view(s) == begin_create(*req),
{
    let work = req.work_name.as_str();
    let path = req.worktree_path.as_str();
    match &req.new_branch_base {
        Some(start) => {
            let note = m2("creating_branch", work, start.as_str(), req.japanese);
            AddStep::Run {
                next: AddState::Creating(owned(work)),
                cmd: v7("git", "worktree", "add", "-b", work, path, start.as_str()),
                notes: one_note(note),
            }
        },
        None => match &req.branch {
            Some(b) => {
                let mut slash: Vec<char> = Vec::new();
                slash.push('/');
                assert(slash@ =~= seq!['/']);
                if find_chars(&chars_of(b.as_str()), &slash).is_some() {
                    AddStep::Run { next: AddState::ListingRemotes, cmd: v2("git", "remote"), notes: no_notes() }
                } else {
                    AddStep::Run {
                        next: AddState::Creating(b.clone()),
                        cmd: v5("git", "worktree", "add", path, b.as_str()),
                        notes: one_note(worktree_note(req)),
                    }
                }
            },
            None => AddStep::Run {
                next: AddState::CheckingLocal,
                cmd: v4("git", "rev-parse", "--verify", work),
                notes: no_notes(),
            },
        },
    }
}

fn create_from_found_exec(req: &AddRequest, start: &str) -> (s: AddStep)
    ensures
        step_view(s) == create_from_found(*req, start@),
{
    let work = req.work_name.as_str();
    let note = m2("creating_branch", work, start, req.japanese);
    AddStep::Run {
        next: AddState::Creating(owned(work)),
        cmd: v8("git", "worktree", "add", "--no-track", "-b", work, req.worktree_path.as_str(), start),
        notes: one_note(note),
    }
}

fn candidate_exec(k: usize) -> (r: &'static str)
    ensures
        r@ == candidate(k as int),
{
    if k == 0 {
        "origin/main"
    } else if k == 1 {
        "origin/master"
    } else if k == 2 {
        "main"
    } else {
        "master"
    }
}

/// The parts before and after the first `/` of `b`, which holds one.
fn split_remote(b: &str) -> (r: (String, String))
    requires
        find_pat(b@, seq!['/']) >= 0,
    ensures
        r.0@ == remote_part(b@),
        r.1@ == local_part(b@),
{
    let bc = chars_of(b);
    let mut slash: Vec<char> = Vec::new();
    slash.push('/');
    assert(slash@ =~= seq!['/']);
    proof {
        crate::text::lemma_find_pat_bounds(b@, seq!['/']);
    }
    let i = find_chars(&bc, &slash).unwrap();
    assert(seq!['/'].len() == 1);
    assert(i + 1 <= bc@.len());
    assert(i < bc.len());
    let j: usize = i + 1;
    (string_of(&crate::text::take_chars(&bc, i)), string_of(&crate::text::skip_chars(&bc, j)))
}

/// The step after the command of `state` reported `result`.
pub fn add_worktree_next(req: &AddRequest, state: &AddState, result: &CmdResult) -> (s: AddStep)
    ensures
        step_view(s) == add_next_spec(*req, phase_of(*state), *result),
{
    let ok = result.status == 0;
    let work = req.work_name.as_str();
    let path = req.worktree_path.as_str();
    let given: String = match &req.branch {
        Some(b) => b.clone(),
        None => String::new(),
    };
    assert(given@ == given_branch(*req));
    match state {
        AddState::Fetching => {
            if ok {
                AddStep::Run {
                    next: AddState::ReadingHead,
                    cmd: v4("git", "rev-parse", "--abbrev-ref", "HEAD"),
                    notes: no_notes(),
                }
            } else {
                let e = string_of(&trim_end_chars(&chars_of(result.stderr.as_str())));
                AddStep::Fail { text: fatal_error(e.as_str(), req.japanese), line: true }
            }
        },
        AddState::ReadingHead => {
            if ok {
                let out = string_of(&trim_chars(&chars_of(result.stdout.as_str())));
                let up = cat("origin/", out.as_str());
                AddStep::Run {
                    next: AddState::CheckingUpstream(out),
                    cmd: v4("git", "rev-parse", "--verify", up.as_str()),
                    notes: no_notes(),
                }
            } else {
                begin_create_exec(req)
            }
        },
        AddState::CheckingUpstream(b) => {
            if ok {
                AddStep::Run {
                    next: AddState::Pulling,
                    cmd: v4("git", "pull", "origin", b.as_str()),
                    notes: no_notes(),
                }
            } else {
                begin_create_exec(req)
            }
        },
        AddState::Pulling => begin_create_exec(req),
        AddState::ListingRemotes => {
            let mut slash: Vec<char> = Vec::new();
            slash.push('/');
            assert(slash@ =~= seq!['/']);
            let has_slash = find_chars(&chars_of(given.as_str()), &slash).is_some();
            if has_slash {
                let (remote, short) = split_remote(given.as_str());
                if ok && has_remote(result.stdout.as_str(), remote.as_str()) {
                    return AddStep::Run {
                        next: AddState::CheckingShort,
                        cmd: v4("git", "rev-parse", "--verify", short.as_str()),
                        notes: no_notes(),
                    };
                }
            }
            AddStep::Run {
                next: AddState::Creating(given.clone()),
                cmd: v5("git", "worktree", "add", path, given.as_str()),
                notes: one_note(worktree_note(req)),
            }
        },
        AddState::CheckingShort => {
            let mut slash: Vec<char> = Vec::new();
            slash.push('/');
            assert(slash@ =~= seq!['/']);
            let short: String = if find_chars(&chars_of(given.as_str()), &slash).is_some() {
                split_remote(given.as_str()).1
            } else {
                assert(given@.skip(0) =~= given@);
                given.clone()
            };
            let a = worktree_note(req);
            if !ok {
                let mut t = cat("Creating tracking branch ", short.as_str());
                t.append(" for ");
                t.append(given.as_str());
                t.append("...");
                AddStep::Run {
                    next: AddState::Creating(short.clone()),
                    cmd: v7("git", "worktree", "add", "-b", short.as_str(), path, given.as_str()),
                    notes: two_notes(a, t),
                }
            } else {
                let mut t = cat("Local branch ", short.as_str());
                t.append(" already exists. Using it instead of ");
                t.append(given.as_str());
                t.append(".");
                AddStep::Run {
                    next: AddState::Creating(short.clone()),
                    cmd: v5("git", "worktree", "add", path, short.as_str()),
                    notes: two_notes(a, t),
                }
            }
        },
        AddState::CheckingLocal => {
            let up = cat("origin/", work);
            AddStep::Run {
                next: AddState::CheckingRemote(ok),
                cmd: v4("git", "rev-parse", "--verify", up.as_str()),
                notes: no_notes(),
            }
        },
        AddState::CheckingRemote(local) => {
            if *local {
                AddStep::Run {
                    next: AddState::Creating(owned(work)),
                    cmd: v5("git", "worktree", "add", path, work),
                    notes: one_note(worktree_note(req)),
                }
            } else if ok {
                let up = cat("origin/", work);
                let mut t = cat("Creating tracking branch ", work);
                t.append(" for origin/");
                t.append(work);
                t.append("...");
                AddStep::Run {
                    next: AddState::Creating(owned(work)),
                    cmd: v7("git", "worktree", "add", "-b", work, path, up.as_str()),
                    notes: two_notes(worktree_note(req), t),
                }
            } else {
                AddStep::Run {
                    next: AddState::ReadingOriginHead,
                    cmd: v4("git", "symbolic-ref", "refs/remotes/origin/HEAD", "--short"),
                    notes: no_notes(),
                }
            }
        },
        AddState::ReadingOriginHead => {
            let oc = trim_chars(&chars_of(result.stdout.as_str()));
            if ok && oc.len() > 0 {
                create_from_found_exec(req, string_of(&oc).as_str())
            } else {
                AddStep::Run {
                    next: AddState::CheckingCandidate(0),
                    cmd: v4("git", "rev-parse", "--verify", candidate_exec(0)),
                    notes: no_notes(),
                }
            }
        },
        AddState::CheckingCandidate(k) => {
            let k = *k;
            if ok {
                create_from_found_exec(req, candidate_exec(k))
            } else if k < 3 {
                AddStep::Run {
                    next: AddState::CheckingCandidate(k + 1),
                    cmd: v4("git", "rev-parse", "--verify", candidate_exec(k + 1)),
                    notes: no_notes(),
                }
            } else {
                AddStep::Run {
                    next: AddState::ReadingHeadFallback,
                    cmd: v4("git", "rev-parse", "--abbrev-ref", "HEAD"),
                    notes: no_notes(),
                }
            }
        },
        AddState::ReadingHeadFallback => {
            let oc = trim_chars(&chars_of(result.stdout.as_str()));
            if ok && oc.len() > 0 {
                create_from_found_exec(req, string_of(&oc).as_str())
            } else {
                let inner = m0("default_branch_not_found", req.japanese);
                AddStep::Fail { text: fatal_error(inner.as_str(), req.japanese), line: true }
            }
        },
        AddState::Creating(name) => {
            if ok {
                AddStep::Done { branch: name.clone() }
            } else {
                AddStep::Fail { text: result.stderr.clone(), line: false }
            }
        },
    }
}

/// How far a phase is from the end of adding a worktree.
pub open spec fn add_rank(p: AddPhase) -> int {
    match p {
        AddPhase::Fetching => 13,
        AddPhase::ReadingHead => 12,
        AddPhase::CheckingUpstream(_) => 11,
        AddPhase::Pulling => 10,
        AddPhase::ListingRemotes => 9,
        AddPhase::CheckingShort => 8,
        AddPhase::CheckingLocal => 9,
        AddPhase::CheckingRemote(_) => 8,
        AddPhase::ReadingOriginHead => 7,
        AddPhase::CheckingCandidate(k) => if 0 <= k <= 3 {
            6 - k
        } else {
            3
        },
        AddPhase::ReadingHeadFallback => 2,
        AddPhase::Creating(_) => 1,
    }
}

/// Adding a worktree always comes to an end: every step that runs a command moves to a
/// phase of lower rank, and the result of the creation command ends it with success
/// or failure.
pub proof fn lemma_add_terminates(req: AddRequest, p: AddPhase, r: CmdResult)
    ensures
        add_start_spec(req) matches AddStepSpec::Run(n, _, _) && n == AddPhase::Fetching,
        match add_next_spec(req, p, r) {
            AddStepSpec::Run(n, _, _) => 0 < add_rank(n) < add_rank(p),
            _ => true,
        },
        p is Creating ==> !(add_next_spec(req, p, r) is Run),
{
}

/// A branch made from a start point that was found rather than named does not take that
/// start point as its upstream: its creation command carries `--no-track`.
pub proof fn lemma_add_found_start_untracked(req: AddRequest, p: AddPhase, r: CmdResult)
    requires
        p is ReadingOriginHead || p is CheckingCandidate || p is ReadingHeadFallback,
    ensures
        match add_next_spec(req, p, r) {
            AddStepSpec::Run(n, cmd, _) => n is Creating ==> (exists|start: Seq<char>|
                cmd == add_untracked_cmd(req.work_name@, req.worktree_path@, start)),
            _ => true,
        },
{
}

/// `cmd` is a `git worktree add` that puts the worktree at `path`.
pub open spec fn creates_at(cmd: Seq<Seq<char>>, path: Seq<char>) -> bool {
    cmd.len() >= 5 && cmd.take(3) == seq!["git"@, "worktree"@, "add"@] && cmd.contains(path)
}

/// Every command that creates the worktree creates it at the requested path, for the
/// branch that success then reports.
pub proof fn lemma_add_creates_at_path(req: AddRequest, p: AddPhase, r: CmdResult)
    ensures
        match add_next_spec(req, p, r) {
            AddStepSpec::Run(n, cmd, _) => n is Creating ==> creates_at(cmd, req.worktree_path@),
            _ => true,
        },
        match begin_create(req) {
            AddStepSpec::Run(n, cmd, _) => n is Creating ==> creates_at(cmd, req.worktree_path@),
            _ => true,
        },
        match p {
            AddPhase::Creating(name) => r.status == 0 ==> add_next_spec(req, p, r)
                == AddStepSpec::Done(name),
            _ => true,
        },
{
    let path = req.worktree_path@;
    match add_next_spec(req, p, r) {
        AddStepSpec::Run(n, cmd, _) => {
            if n is Creating {
                if cmd.len() == 5 {
                    assert(cmd[3] == path || cmd[4] == path);
                } else if cmd.len() == 7 {
                    assert(cmd[5] == path);
                } else {
                    assert(cmd[6] == path);
                }
                assert(cmd.take(3) =~= seq!["git"@, "worktree"@, "add"@]);
            }
        },
        _ => {},
    }
    match begin_create(req) {
        AddStepSpec::Run(n, cmd, _) => {
            if n is Creating {
                if cmd.len() == 5 {
                    assert(cmd[3] == path);
                } else {
                    assert(cmd[5] == path);
                }
                assert(cmd.take(3) =~= seq!["git"@, "worktree"@, "add"@]);
            }
        },
        _ => {},
    }
}


/// When the worktree's name is already a local branch, that branch is checked out as it is,
/// whatever origin holds; a branch tracking `origin/<name>` is made only when there is no
/// local branch of that name and origin has one; with neither, the default branch is
/// looked for next.
pub proof fn lemma_add_local_branch_first(req: AddRequest, local: bool, r: CmdResult)
    ensures
        local ==> add_next_spec(req, AddPhase::CheckingRemote(local), r) == AddStepSpec::Run(
            AddPhase::Creating(req.work_name@),
            seq!["git"@, "worktree"@, "add"@, req.worktree_path@, req.work_name@],
            seq![creating_worktree_note(req)],
        ),
        !local && r.status == 0 ==> add_next_spec(req, AddPhase::CheckingRemote(local), r)
            == AddStepSpec::Run(
            AddPhase::Creating(req.work_name@),
            seq![
                "git"@,
                "worktree"@,
                "add"@,
                "-b"@,
                req.work_name@,
                req.worktree_path@,
                "origin/"@ + req.work_name@,
            ],
            seq![
                creating_worktree_note(req),
                "Creating tracking branch "@ + req.work_name@ + " for origin/"@ + req.work_name@
                    + "..."@,
            ],
        ),
        !local && r.status != 0 ==> (add_next_spec(req, AddPhase::CheckingRemote(local), r) matches AddStepSpec::Run(
            AddPhase::ReadingOriginHead,
            _,
            _,
        )),
{
}


/// Law: for a branch given as `<remote>/<name>`, an existing local branch `<name>` is
/// checked out as it is; only without one is a new branch `<name>` made from the remote
/// branch. The worktree is created in either case.
pub proof fn lemma_add_given_remote_branch(req: AddRequest, r: CmdResult)
    ensures
        ({
            let given = given_branch(req);
            let short = local_part(given);
            let step = add_next_spec(req, AddPhase::CheckingShort, r);
            &&& r.status == 0 ==> match step {
                AddStepSpec::Run(AddPhase::Creating(b), cmd, _) => b == short && cmd == seq![
                "git"@,
                "worktree"@,
                "add"@,
                req.worktree_path@,
                short,
            ],
                _ => false,
            }
            &&& r.status != 0 ==> match step {
                AddStepSpec::Run(AddPhase::Creating(b), cmd, _) => b == short && cmd == seq![
                "git"@,
                "worktree"@,
                "add"@,
                "-b"@,
                short,
                req.worktree_path@,
                given,
            ],
                _ => false,
            }
        }),
{
}

} // verus!
