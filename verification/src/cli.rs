use vstd::prelude::*;
use crate::messages::{m1, msg_spec};
use crate::text::{chars_of, lowercase, starts_with, str_eq, string_of, string_views, to_lowercase, trim, trim_chars};

verus! {

/// The options that hold for a whole run of `wt`: the git directory given with
/// `--git-dir`, which every `git` command then names.
pub struct GlobalOptions {
    pub git_dir: Option<String>,
}

impl GlobalOptions {
    pub fn new() -> (r: GlobalOptions)
        ensures
            r.git_dir is None,
    {
        GlobalOptions { git_dir: None }
    }

    /// `global_git_dir`.
    pub fn global_git_dir(&self) -> (r: Option<String>)
        ensures
            r == self.git_dir,
    {
        match &self.git_dir {
            Some(d) => Some(d.clone()),
            None => None,
        }
    }

    /// `set_global_git_dir`.
    pub fn set_global_git_dir(&mut self, path: String)
        ensures
            final(self).git_dir == Some(path),
    {
        self.git_dir = Some(path);
    }
}

/// An option that acts on the whole run, in the order given.
pub enum GlobalAction {
    /// `--git-dir <dir>` or `--git-dir=<dir>`, the directory as written
    SetGitDir(String),
    /// `-C <dir>`, the directory as written
    ChangeDir(String),
}

pub enum GlobalActionSpec {
    SetGitDir(Seq<char>),
    ChangeDir(Seq<char>),
}

pub open spec fn action_view(a: GlobalAction) -> GlobalActionSpec {
    match a {
        GlobalAction::SetGitDir(d) => GlobalActionSpec::SetGitDir(d@),
        GlobalAction::ChangeDir(d) => GlobalActionSpec::ChangeDir(d@),
    }
}

pub open spec fn action_views(v: Seq<GlobalAction>) -> Seq<GlobalActionSpec> {
    Seq::new(v.len(), |i: int| action_view(v[i]))
}

/// `parse_global_args`: the options acting on the whole run, the other arguments, and
/// the failure that stopped the reading, if one did.
pub struct GlobalArgs {
    pub actions: Vec<GlobalAction>,
    pub args: Vec<String>,
    pub error: Option<String>,
}

pub type ScanSpec = (Seq<GlobalActionSpec>, Seq<Seq<char>>, Option<Seq<char>>);

pub open spec fn with_action(a: GlobalActionSpec, rest: ScanSpec) -> ScanSpec {
    (seq![a] + rest.0, rest.1, rest.2)
}

pub open spec fn with_arg(x: Seq<char>, rest: ScanSpec) -> ScanSpec {
    (rest.0, seq![x] + rest.1, rest.2)
}

/// The arguments from index `i` on, read as `parse_global_args` reads them.
pub open spec fn global_scan(a: Seq<Seq<char>>, i: int) -> ScanSpec
    decreases a.len() - i,
{
    if i < 0 || i >= a.len() {
        (seq![], seq![], None)
    } else {
        let arg = a[i];
        if starts_with(arg, "--git-dir="@) {
            let v = arg.skip(10);
            if v.len() == 0 {
                (seq![], seq![], Some("Missing value for --git-dir"@))
            } else {
                with_action(GlobalActionSpec::SetGitDir(v), global_scan(a, i + 1))
            }
        } else if arg == "--git-dir"@ {
            if i + 1 >= a.len() {
                (seq![], seq![], Some("Missing value for --git-dir"@))
            } else {
                with_action(GlobalActionSpec::SetGitDir(a[i + 1]), global_scan(a, i + 2))
            }
        } else if arg == "-C"@ {
            if i + 1 >= a.len() {
                (seq![], seq![], Some("Missing value for -C"@))
            } else {
                with_action(GlobalActionSpec::ChangeDir(a[i + 1]), global_scan(a, i + 2))
            }
        } else {
            with_arg(arg, global_scan(a, i + 1))
        }
    }
}

pub open spec fn opt_seq(o: Option<String>) -> Option<Seq<char>> {
    match o {
        Some(s) => Some(s@),
        None => None,
    }
}

/// `parse_global_args`: `--git-dir` (with its value after `=` or next) and `-C` (with
/// the next argument) are taken out; a missing value stops the reading with an error.
pub fn parse_global_args(argv: &Vec<String>) -> (r: GlobalArgs)
    ensures
        (action_views(r.actions@), string_views(r.args@), opt_seq(r.error)) == global_scan(
            string_views(argv@),
            0,
        ),
{
    let ghost a = string_views(argv@);
    let mut actions: Vec<GlobalAction> = Vec::new();
    let mut args: Vec<String> = Vec::new();
    let mut i: usize = 0;
    let gd = chars_of("--git-dir=");
    proof {
        reveal_strlit("--git-dir=");
    }
    while i < argv.len()
        invariant
            a == string_views(argv@),
            gd@ == "--git-dir="@,
            gd@.len() == 10,
            i <= argv.len() + 1,
            global_scan(a, 0) == (
                action_views(actions@) + global_scan(a, i as int).0,
                string_views(args@) + global_scan(a, i as int).1,
                global_scan(a, i as int).2,
            ),
        decreases argv.len() + 1 - i,
    {
        let arg = argv[i].as_str();
        let ac = chars_of(arg);
        let ghost rest = global_scan(a, i as int);
        if crate::text::starts_with_chars(&ac, &gd) {
            let v = crate::text::skip_chars(&ac, 10);
            if v.len() == 0 {
                return GlobalArgs { actions, args, error: Some(String::from_str("Missing value for --git-dir")) };
            }
            let ghost a0 = action_views(actions@);
            let act = GlobalAction::SetGitDir(string_of(&v));
            actions.push(act);
            assert(action_views(actions@) =~= a0.push(action_view(act)));
            assert(a0 + rest.0 =~= action_views(actions@) + global_scan(a, i + 1).0);
            i = i + 1;
        } else if str_eq(arg, "--git-dir") || str_eq(arg, "-C") {
            let is_dir = str_eq(arg, "--git-dir");
            if i + 1 >= argv.len() {
                let msg = if is_dir {
                    String::from_str("Missing value for --git-dir")
                } else {
                    String::from_str("Missing value for -C")
                };
                return GlobalArgs { actions, args, error: Some(msg) };
            }
            let ghost a0 = action_views(actions@);
            let value = argv[i + 1].clone();
            let act = if is_dir {
                GlobalAction::SetGitDir(value)
            } else {
                GlobalAction::ChangeDir(value)
            };
            actions.push(act);
            assert(action_views(actions@) =~= a0.push(action_view(act)));
            assert(a0 + rest.0 =~= action_views(actions@) + global_scan(a, i + 2).0);
            i = i + 2;
        } else {
            let ghost g0 = string_views(args@);
            args.push(argv[i].clone());
            assert(string_views(args@) =~= g0.push(a[i as int]));
            assert(g0 + rest.1 =~= string_views(args@) + global_scan(a, i + 1).1);
            i = i + 1;
        }
    }
    assert(action_views(actions@) + Seq::<GlobalActionSpec>::empty() =~= action_views(actions@));
    assert(string_views(args@) + Seq::<Seq<char>>::empty() =~= string_views(args@));
    GlobalArgs { actions, args, error: None }
}

/// The commands of `wt`.
#[derive(PartialEq, Eq, Structural, Clone, Copy)]
pub enum Command {
    Help,
    Version,
    Clone,
    Init,
    Add,
    List,
    Diff,
    Config,
    Remove,
    Clean,
    Setup,
    Hook,
    Stash,
    Pr,
    Select,
    Current,
    Checkout,
    Run,
    Completion,
    Doctor,
    Passthrough,
}

/// The command a word names, with every alias; any other word is handed to `git`.
pub open spec fn command_spec(w: Seq<char>) -> Command {
    if w == "-h"@ || w == "--help"@ {
        Command::Help
    } else if w == "-v"@ || w == "--version"@ {
        Command::Version
    } else if w == "clone"@ || w == "cn"@ {
        Command::Clone
    } else if w == "init"@ || w == "in"@ {
        Command::Init
    } else if w == "add"@ || w == "ad"@ {
        Command::Add
    } else if w == "list"@ || w == "li"@ || w == "ls"@ {
        Command::List
    } else if w == "diff"@ || w == "di"@ || w == "df"@ {
        Command::Diff
    } else if w == "config"@ || w == "cf"@ {
        Command::Config
    } else if w == "rm"@ || w == "remove"@ {
        Command::Remove
    } else if w == "clean"@ || w == "cl"@ {
        Command::Clean
    } else if w == "setup"@ || w == "su"@ {
        Command::Setup
    } else if w == "hook"@ || w == "ho"@ {
        Command::Hook
    } else if w == "stash"@ || w == "st"@ {
        Command::Stash
    } else if w == "pr"@ {
        Command::Pr
    } else if w == "select"@ || w == "se"@ || w == "sl"@ {
        Command::Select
    } else if w == "current"@ || w == "cu"@ || w == "cur"@ {
        Command::Current
    } else if w == "co"@ || w == "checkout"@ {
        Command::Checkout
    } else if w == "run"@ || w == "ru"@ {
        Command::Run
    } else if w == "completion"@ || w == "cm"@ {
        Command::Completion
    } else if w == "doctor"@ || w == "dr"@ {
        Command::Doctor
    } else {
        Command::Passthrough
    }
}

fn is_one_of(w: &str, a: &str, b: &str, c: &str) -> (r: bool)
    ensures
        r == (w@ == a@ || w@ == b@ || w@ == c@),
{
    str_eq(w, a) || str_eq(w, b) || str_eq(w, c)
}

/// The command the first argument names.
pub fn resolve_command(w: &str) -> (r: Command)
    ensures
        r == command_spec(w@),
{
    if is_one_of(w, "-h", "--help", "--help") {
        Command::Help
    } else if is_one_of(w, "-v", "--version", "--version") {
        Command::Version
    } else if is_one_of(w, "clone", "cn", "cn") {
        Command::Clone
    } else if is_one_of(w, "init", "in", "in") {
        Command::Init
    } else if is_one_of(w, "add", "ad", "ad") {
        Command::Add
    } else if is_one_of(w, "list", "li", "ls") {
        Command::List
    } else if is_one_of(w, "diff", "di", "df") {
        Command::Diff
    } else if is_one_of(w, "config", "cf", "cf") {
        Command::Config
    } else if is_one_of(w, "rm", "remove", "remove") {
        Command::Remove
    } else if is_one_of(w, "clean", "cl", "cl") {
        Command::Clean
    } else if is_one_of(w, "setup", "su", "su") {
        Command::Setup
    } else if is_one_of(w, "hook", "ho", "ho") {
        Command::Hook
    } else if is_one_of(w, "stash", "st", "st") {
        Command::Stash
    } else if str_eq(w, "pr") {
        Command::Pr
    } else if is_one_of(w, "select", "se", "sl") {
        Command::Select
    } else if is_one_of(w, "current", "cu", "cur") {
        Command::Current
    } else if is_one_of(w, "co", "checkout", "checkout") {
        Command::Checkout
    } else if is_one_of(w, "run", "ru", "ru") {
        Command::Run
    } else if is_one_of(w, "completion", "cm", "cm") {
        Command::Completion
    } else if is_one_of(w, "doctor", "dr", "dr") {
        Command::Doctor
    } else {
        Command::Passthrough
    }
}

/// The arguments of `wt add`.
pub struct AddArgs {
    pub name: Option<String>,
    pub branch: Option<String>,
    pub skip_setup: bool,
    pub skip_hook: bool,
    pub select: bool,
    pub command: Option<Vec<String>>,
}

/// The part of `a` before the first `--select`, and whether there is one.
pub open spec fn select_at(a: Seq<Seq<char>>) -> int {
    crate::listing::first_index(a, "--select"@)
}

pub open spec fn is_add_flag(x: Seq<char>) -> bool {
    x == "--skip-setup"@ || x == "--no-setup"@ || x == "--skip-hook"@ || x == "--no-hook"@
}

/// The words of `a` that are not flags of `wt add`.
pub open spec fn add_words(a: Seq<Seq<char>>) -> Seq<Seq<char>>
    decreases a.len(),
{
    if a.len() == 0 {
        seq![]
    } else if is_add_flag(a.last()) {
        add_words(a.drop_last())
    } else {
        add_words(a.drop_last()).push(a.last())
    }
}

/// How `wt add` reads its arguments: `--skip-setup`/`--no-setup`,
/// `--skip-hook`/`--no-hook`, and `--select`, after which everything is the command to
/// run in the new worktree; the first other word names the worktree (or, when there is
/// none, the first word of that command does), the second the branch.
pub open spec fn add_args_match(r: AddArgs, a: Seq<Seq<char>>) -> bool {
    let s = select_at(a);
    let before = if s >= 0 {
        a.take(s)
    } else {
        a
    };
    let after: Seq<Seq<char>> = if s >= 0 {
        a.skip(s + 1)
    } else {
        seq![]
    };
    let words = add_words(before);
    let (names, cmd) = if words.len() == 0 && after.len() > 0 {
        (seq![after[0]], after.drop_first())
    } else {
        (words, after)
    };
    &&& r.skip_setup == (before.contains("--skip-setup"@) || before.contains("--no-setup"@))
    &&& r.skip_hook == (before.contains("--skip-hook"@) || before.contains("--no-hook"@))
    &&& r.select == (s >= 0)
    &&& opt_seq(r.name) == (if names.len() > 0 {
        Some(names[0])
    } else {
        None
    })
    &&& opt_seq(r.branch) == (if names.len() > 1 {
        Some(names[1])
    } else {
        None
    })
    &&& match r.command {
        Some(c) => cmd.len() > 0 && string_views(c@) == cmd,
        None => cmd.len() == 0,
    }
}

/// The arguments of `wt add`.
pub fn parse_add_args(args: &Vec<String>) -> (r: AddArgs)
    ensures
        add_args_match(r, string_views(args@)),
{
    let ghost a = string_views(args@);
    let mut words: Vec<String> = Vec::new();
    let mut skip_setup = false;
    let mut skip_hook = false;
    let mut sel: Option<usize> = None;
    let mut i: usize = 0;
    while i < args.len()
        invariant
            a == string_views(args@),
            i <= args.len(),
            sel is None,
            forall|k: int| 0 <= k < i ==> a[k] != "--select"@,
            string_views(words@) == add_words(a.take(i as int)),
            skip_setup == (a.take(i as int).contains("--skip-setup"@) || a.take(i as int).contains("--no-setup"@)),
            skip_hook == (a.take(i as int).contains("--skip-hook"@) || a.take(i as int).contains("--no-hook"@)),
        ensures
            i < args.len() ==> a[i as int] == "--select"@,
        decreases args.len() - i,
    {
        let w = args[i].as_str();
        assert(a.take(i + 1).drop_last() =~= a.take(i as int));
        assert(a.take(i + 1).last() == w@);
        assert(a.take(i + 1) =~= a.take(i as int).push(w@));
        proof {
            crate::text::lemma_contains_push(a.take(i as int), w@, "--skip-setup"@);
            crate::text::lemma_contains_push(a.take(i as int), w@, "--no-setup"@);
            crate::text::lemma_contains_push(a.take(i as int), w@, "--skip-hook"@);
            crate::text::lemma_contains_push(a.take(i as int), w@, "--no-hook"@);
        }
        if str_eq(w, "--select") {
            break;
        }
        let ghost w0 = string_views(words@);
        let setup_flag = str_eq(w, "--skip-setup") || str_eq(w, "--no-setup");
        let hook_flag = str_eq(w, "--skip-hook") || str_eq(w, "--no-hook");
        if setup_flag {
            skip_setup = true;
        }
        if hook_flag {
            skip_hook = true;
        }
        if !setup_flag && !hook_flag {
            words.push(args[i].clone());
            assert(string_views(words@) =~= w0.push(w@));
        }
        i = i + 1;
    }
    let select = i < args.len();
    proof {
        crate::listing::lemma_first_index(a, "--select"@);
        if select {
            assert(a[i as int] == "--select"@);
            assert(select_at(a) == i);
        } else {
            assert(a.take(i as int) =~= a);
            assert(!a.contains("--select"@));
        }
    }
    let mut after: Vec<String> = Vec::new();
    if select {
        let mut k: usize = i + 1;
        while k < args.len()
            invariant
                a == string_views(args@),
                i < args.len(),
                i + 1 <= k <= args.len(),
                string_views(after@) == a.subrange(i + 1, k as int),
            decreases args.len() - k,
        {
            let ghost f0 = string_views(after@);
            let x = args[k].clone();
            after.push(x);
            assert(string_views(after@) =~= f0.push(a[k as int]));
            assert(string_views(after@) =~= a.subrange(i + 1, k + 1));
            k = k + 1;
        }
        assert(a.subrange(i + 1, args.len() as int) =~= a.skip(i + 1));
    } else {
        assert(string_views(after@) =~= Seq::<Seq<char>>::empty());
    }
    let ghost av = string_views(after@);
    if words.len() == 0 && after.len() > 0 {
        let first = after.remove(0);
        assert(string_views(after@) =~= av.drop_first());
        words.push(first);
    }
    let ghost nv = string_views(words@);
    let name = if words.len() > 0 {
        Some(words[0].clone())
    } else {
        None
    };
    let branch = if words.len() > 1 {
        Some(words[1].clone())
    } else {
        None
    };
    let command = if after.len() > 0 {
        Some(after)
    } else {
        None
    };
    AddArgs { name, branch, skip_setup, skip_hook, select, command }
}

/// What setting up a new worktree does, by the two flags: copy the setup files unless
/// `--skip-setup`, run `post-add` unless either flag is given.
pub fn setup_steps(skip_setup: bool, skip_hook: bool) -> (r: (bool, bool))
    ensures
        r.0 == !skip_setup,
        r.1 == (!skip_setup && !skip_hook),
{
    (!skip_setup, !skip_setup && !skip_hook)
}

/// The arguments of `wt rm`: the force flags in order, whether to skip the hook, and the
/// first other word as the worktree's name.
pub struct RemoveArgs {
    pub flags: Vec<String>,
    pub skip_hook: bool,
    pub name: Option<String>,
}

pub open spec fn is_force(x: Seq<char>) -> bool {
    x == "-f"@ || x == "--force"@
}

pub open spec fn is_hook_skip(x: Seq<char>) -> bool {
    x == "--skip-hook"@ || x == "--no-hook"@
}

pub open spec fn force_flags(a: Seq<Seq<char>>) -> Seq<Seq<char>>
    decreases a.len(),
{
    if a.len() == 0 {
        seq![]
    } else if is_force(a.last()) {
        force_flags(a.drop_last()).push(a.last())
    } else {
        force_flags(a.drop_last())
    }
}

pub open spec fn first_plain(a: Seq<Seq<char>>) -> Option<Seq<char>>
    decreases a.len(),
{
    if a.len() == 0 {
        None
    } else if !is_force(a[0]) && !is_hook_skip(a[0]) {
        Some(a[0])
    } else {
        first_plain(a.drop_first())
    }
}

pub fn parse_remove_args(args: &Vec<String>) -> (r: RemoveArgs)
    ensures
        ({
            let a = string_views(args@);
            &&& string_views(r.flags@) == force_flags(a)
            &&& r.skip_hook == (a.contains("--skip-hook"@) || a.contains("--no-hook"@))
            &&& opt_seq(r.name) == first_plain(a)
        }),
{
    let ghost a = string_views(args@);
    let mut flags: Vec<String> = Vec::new();
    let mut skip_hook = false;
    let mut name: Option<String> = None;
    assert(a.skip(0) =~= a);
    for i in 0..args.len()
        invariant
            a == string_views(args@),
            string_views(flags@) == force_flags(a.take(i as int)),
            skip_hook == (a.take(i as int).contains("--skip-hook"@) || a.take(i as int).contains("--no-hook"@)),
            first_plain(a) == match name {
                Some(n) => Some(n@),
                None => first_plain(a.skip(i as int)),
            },
    {
        let w = args[i].as_str();
        assert(a.take(i + 1).drop_last() =~= a.take(i as int));
        assert(a.take(i + 1).last() == w@);
        assert(a.take(i + 1) =~= a.take(i as int).push(w@));
        proof {
            crate::text::lemma_contains_push(a.take(i as int), w@, "--skip-hook"@);
            crate::text::lemma_contains_push(a.take(i as int), w@, "--no-hook"@);
        }
        assert(a.skip(i as int).drop_first() =~= a.skip(i + 1));
        assert(a.skip(i as int)[0] == w@);
        let ghost f0 = string_views(flags@);
        let force = str_eq(w, "-f") || str_eq(w, "--force");
        let hook = str_eq(w, "--skip-hook") || str_eq(w, "--no-hook");
        if force {
            flags.push(args[i].clone());
            assert(string_views(flags@) =~= f0.push(w@));
        }
        if hook {
            skip_hook = true;
        }
        if !force && !hook && name.is_none() {
            name = Some(args[i].clone());
        }
    }
    assert(a.take(args.len() as int) =~= a);
    proof {
        if name is None {
            assert(a.skip(args.len() as int).len() == 0);
        }
    }
    RemoveArgs { flags, skip_hook, name }
}

/// `git worktree remove`, the flags, then the worktree's path.
pub fn remove_command(flags: &Vec<String>, path: &str) -> (r: Vec<String>)
    ensures
        string_views(r@) == seq!["git"@, "worktree"@, "remove"@] + string_views(flags@) + seq![path@],
{
    let mut out = crate::words::v3("git", "worktree", "remove");
    let ghost o0 = string_views(out@);
    for i in 0..flags.len()
        invariant
            o0 == seq!["git"@, "worktree"@, "remove"@],
            string_views(out@) == o0 + string_views(flags@).take(i as int),
    {
        let ghost b = string_views(out@);
        let x = flags[i].clone();
        out.push(x);
        assert(string_views(out@) =~= b.push(x@));
        assert(string_views(out@) =~= o0 + string_views(flags@).take(i + 1));
    }
    assert(string_views(flags@).take(flags.len() as int) =~= string_views(flags@));
    let ghost b = string_views(out@);
    out.push(String::from_str(path));
    assert(string_views(out@) =~= b.push(path@));
    out
}

/// A confirmation answer: `y` or `yes` in any case, around white space.
pub open spec fn is_yes(answer: Seq<char>) -> bool {
    lowercase(trim(answer)) == "y"@ || lowercase(trim(answer)) == "yes"@
}

pub fn confirmed(answer: &str) -> (r: bool)
    ensures
        r == is_yes(answer@),
{
    let t = string_of(&trim_chars(&chars_of(answer)));
    let l = to_lowercase(t.as_str());
    str_eq(l.as_str(), "y") || str_eq(l.as_str(), "yes")
}

/// An answer to a question whose default is yes: nothing at all, `y` or `yes`.
pub fn accepted_by_default(answer: &str) -> (r: bool)
    ensures
        r == (trim(answer@).len() == 0 || is_yes(answer@)),
{
    let t = trim_chars(&chars_of(answer));
    t.len() == 0 || confirmed(answer)
}

/// Some argument is one of the two words.
pub fn has_either(args: &Vec<String>, a: &str, b: &str) -> (r: bool)
    ensures
        r == (string_views(args@).contains(a@) || string_views(args@).contains(b@)),
{
    let ghost v = string_views(args@);
    for i in 0..args.len()
        invariant
            v == string_views(args@),
            forall|k: int| 0 <= k < i ==> v[k] != a@ && v[k] != b@,
    {
        if str_eq(args[i].as_str(), a) || str_eq(args[i].as_str(), b) {
            assert(v[i as int] == args@[i as int]@);
            return true;
        }
    }
    false
}

} // verus!

verus! {

/// The bash completion script.
pub const BASH_SCRIPT: &'static str = r#"_wt_completions() {
    local cur prev words cword
    _init_completion || return

    local wt_bin="${words[0]}"
    local commands="clone init add ad select sl list ls co checkout current cur stash st pr rm remove clean cl setup su run completion"

    if [[ ${cword} -eq 1 ]]; then
        COMPREPLY=( $(compgen -W "${commands} --git-dir --help --version" -- "${cur}") )
        return 0
    fi

    if [[ "${prev}" == "--git-dir" ]]; then
        COMPREPLY=( $(compgen -d -- "${cur}") )
        return 0
    fi

    local subcmd=""
    for w in "${words[@]:1}"; do
        if [[ "${w}" != --* ]]; then
            subcmd="${w}"
            break
        fi
    done

    local wt_names="$(${wt_bin} list --quiet 2>/dev/null)"

    case "${subcmd}" in
        add|ad)
            COMPREPLY=( $(compgen -W "--skip-setup --no-setup --select ${wt_names}" -- "${cur}") )
            ;;
        select|sl|co|checkout|run|rm|remove)
            COMPREPLY=( $(compgen -W "${wt_names}" -- "${cur}") )
            ;;
        clean|cl)
            COMPREPLY=( $(compgen -W "--days --merged --closed --all --yes -y" -- "${cur}") )
            ;;
        list|ls)
            COMPREPLY=( $(compgen -W "--pr --quiet -q --days --merged --closed --all --sort --asc --desc created last-commit name branch" -- "${cur}") )
            ;;
        stash|st)
            COMPREPLY=( $(compgen -W "${wt_names}" -- "${cur}") )
            ;;
        pr)
            COMPREPLY=( $(compgen -W "add co" -- "${cur}") )
            ;;
        completion)
            COMPREPLY=( $(compgen -W "bash zsh" -- "${cur}") )
            ;;
        *)
            COMPREPLY=( $(compgen -W "${commands}" -- "${cur}") )
            ;;
    esac
}
complete -F _wt_completions wt
"#;

/// The text of the bash completion script.
pub open spec fn bash_completion_text() -> Seq<char> {
    BASH_SCRIPT@
}

/// `bash_completion_script`.
pub fn bash_completion_script() -> (r: &'static str)
    ensures
        r@ == bash_completion_text(),
{
    BASH_SCRIPT
}

/// What `wt completion <shell>` prints: the script for `bash`; for `zsh` the same script
/// between the lines that load it into zsh. `None` (the usage error) for anything else,
/// or for more or fewer arguments than one.
pub open spec fn completion_spec(a: Seq<Seq<char>>) -> Option<Seq<char>> {
    if a.len() != 1 {
        None
    } else if a[0] == "bash"@ {
        Some(bash_completion_text())
    } else if a[0] == "zsh"@ {
        Some("autoload -U +X bashcompinit && bashcompinit\n"@ + bash_completion_text() + "compdef _wt_completions wt\n"@)
    } else {
        None
    }
}

pub fn completion_output(args: &Vec<String>) -> (r: Option<String>)
    ensures
        opt_seq(r) == completion_spec(string_views(args@)),
{
    if args.len() != 1 {
        return None;
    }
    let w = args[0].as_str();
    if str_eq(w, "bash") {
        Some(String::from_str(bash_completion_script()))
    } else if str_eq(w, "zsh") {
        let mut s = String::from_str("autoload -U +X bashcompinit && bashcompinit\n");
        s.append(bash_completion_script());
        s.append("compdef _wt_completions wt\n");
        Some(s)
    } else {
        None
    }
}


/// Whether `wt add` goes on to select the new worktree: asked with `--select`, or, when
/// the name was asked for, the answer to the question (default yes; no answer is no).
pub fn select_after_add(select_flag: bool, prompted: bool, answer: Option<&str>) -> (r: bool)
    ensures
        r == (select_flag || (prompted && match answer {
            Some(a) => trim(a@).len() == 0 || is_yes(a@),
            None => false,
        })),
{
    if select_flag {
        return true;
    }
    if !prompted {
        return false;
    }
    match answer {
        Some(a) => accepted_by_default(a),
        None => false,
    }
}

} // verus!
