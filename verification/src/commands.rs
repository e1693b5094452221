use vstd::prelude::*;
use crate::cli::opt_seq;
use crate::config::{Cfg, ConfigValue, copy_value, deep_merge, default_config, default_config_spec, merge, str_opt_view};
use crate::formats::{parse_toml, render_toml, toml_inline, toml_render, toml_value, write_toml_inline};
use crate::git::CmdResult;
use crate::paths::{get_repository_name, repository_name_spec};
use crate::pr::{JsonValue, json_get, text_of};
use crate::text::{all_digits, chars_of, str_eq, string_of, string_views, trim, trim_chars};
use crate::words::{cat, v2, v3, v4, v6};

verus! {

/// The trimmed output of a command that succeeded with some output.
pub open spec fn trimmed_output_spec(r: CmdResult) -> Option<Seq<char>> {
    if r.status == 0 && trim(r.stdout@).len() > 0 {
        Some(trim(r.stdout@))
    } else {
        None
    }
}

pub fn trimmed_output(r: &CmdResult) -> (o: Option<String>)
    ensures
        opt_seq(o) == trimmed_output_spec(*r),
{
    let t = trim_chars(&chars_of(r.stdout.as_str()));
    if r.status == 0 && t.len() > 0 {
        Some(string_of(&t))
    } else {
        None
    }
}

/// Index of the last worktree called `name`, or -1 (a later name replaces an earlier one,
/// as when `wt diff` maps names to worktrees).
pub open spec fn last_named(names: Seq<Seq<char>>, name: Seq<char>) -> int
    decreases names.len(),
{
    if names.len() == 0 {
        -1
    } else if names.last() == name {
        names.len() - 1
    } else {
        last_named(names.drop_last(), name)
    }
}

pub proof fn lemma_last_named(names: Seq<Seq<char>>, name: Seq<char>)
    ensures
        -1 <= last_named(names, name) < names.len(),
        last_named(names, name) >= 0 ==> names[last_named(names, name)] == name,
        last_named(names, name) < 0 <==> !names.contains(name),
    decreases names.len(),
{
    if names.len() > 0 {
        lemma_last_named(names.drop_last(), name);
        if names.last() != name {
            if names.contains(name) {
                let k = choose|k: int| 0 <= k < names.len() && names[k] == name;
                assert(names.drop_last()[k] == name);
            }
            if names.drop_last().contains(name) {
                let k = choose|k: int| 0 <= k < names.len() - 1 && names.drop_last()[k] == name;
                assert(names[k] == name);
            }
        } else {
            assert(names[names.len() - 1] == name);
        }
    }
}

/// How `wt diff` reads its arguments: the first one that names a worktree picks it
/// (the last worktree of that name); the others are passed on.
pub open spec fn diff_pick(args: Seq<Seq<char>>, names: Seq<Seq<char>>) -> (int, Seq<Seq<char>>)
    decreases args.len(),
{
    if args.len() == 0 {
        (-1, seq![])
    } else {
        let (t, rest) = diff_pick(args.drop_last(), names);
        if t < 0 && names.contains(args.last()) {
            (last_named(names, args.last()), rest)
        } else {
            (t, rest.push(args.last()))
        }
    }
}

pub fn diff_target(args: &Vec<String>, names: &Vec<String>) -> (r: (Option<usize>, Vec<String>))
    ensures
        ({
            let (t, rest) = diff_pick(string_views(args@), string_views(names@));
            &&& match r.0 {
                Some(i) => t == i && i < names.len(),
                None => t < 0,
            }
            &&& string_views(r.1@) == rest
        }),
{
    let ghost a = string_views(args@);
    let ghost nv = string_views(names@);
    let mut target: Option<usize> = None;
    let mut rest: Vec<String> = Vec::new();
    for i in 0..args.len()
        invariant
            a == string_views(args@),
            nv == string_views(names@),
            match target {
                Some(t) => diff_pick(a.take(i as int), nv).0 == t && t < names.len(),
                None => diff_pick(a.take(i as int), nv).0 < 0,
            },
            string_views(rest@) == diff_pick(a.take(i as int), nv).1,
    {
        assert(a.take(i + 1).drop_last() =~= a.take(i as int));
        assert(a.take(i + 1).last() == args@[i as int]@);
        let w = args[i].as_str();
        let mut found: Option<usize> = None;
        if target.is_none() {
            let mut k = names.len();
            while k > 0
                invariant_except_break
                    found is None,
                invariant
                    k <= names.len(),
                    nv == string_views(names@),
                    forall|j: int| k <= j < names.len() ==> nv[j] != w@,
                ensures
                    match found {
                        Some(j) => j < names.len() && nv[j as int] == w@ && forall|m: int|
                            j < m < names.len() ==> nv[m] != w@,
                        None => forall|j: int| 0 <= j < names.len() ==> nv[j] != w@,
                    },
                decreases k,
            {
                if str_eq(names[k - 1].as_str(), w) {
                    found = Some(k - 1);
                    break;
                }
                k = k - 1;
            }
            proof {
                lemma_last_named(nv, w@);
                match found {
                    Some(j) => {
                        assert(nv.contains(w@));
                        lemma_last_is(nv, w@, j as int);
                    },
                    None => {
                        assert(!nv.contains(w@));
                    },
                }
            }
        }
        let ghost r0 = string_views(rest@);
        match found {
            Some(j) => {
                target = Some(j);
            },
            None => {
                rest.push(args[i].clone());
                assert(string_views(rest@) =~= r0.push(w@));
            },
        }
    }
    assert(a.take(args.len() as int) =~= a);
    (target, rest)
}

proof fn lemma_last_is(names: Seq<Seq<char>>, name: Seq<char>, j: int)
    requires
        0 <= j < names.len(),
        names[j] == name,
        forall|m: int| j < m < names.len() ==> names[m] != name,
    ensures
        last_named(names, name) == j,
    decreases names.len(),
{
    if j < names.len() - 1 {
        lemma_last_is(names.drop_last(), name, j);
    }
}

/// The command of a diff tool other than git, with the remaining arguments after it.
pub open spec fn tool_command_spec(tool: Seq<char>, rest: Seq<Seq<char>>) -> Option<Seq<Seq<char>>> {
    if tool == "lumen"@ {
        Some(seq!["lumen"@, "diff"@, "--watch"@] + rest)
    } else if tool == "gitui"@ {
        Some(seq!["gitui"@] + rest)
    } else if tool == "tig"@ {
        Some(seq!["tig"@] + rest)
    } else {
        None
    }
}

fn append_all(v: &mut Vec<String>, rest: &Vec<String>)
    ensures
        string_views(final(v)@) == string_views(old(v)@) + string_views(rest@),
{
    let ghost v0 = string_views(v@);
    for i in 0..rest.len()
        invariant
            string_views(v@) == v0 + string_views(rest@).take(i as int),
    {
        let ghost b = string_views(v@);
        let x = rest[i].clone();
        v.push(x);
        assert(string_views(v@) =~= b.push(x@));
        assert(string_views(v@) =~= v0 + string_views(rest@).take(i + 1));
    }
    assert(string_views(rest@).take(rest.len() as int) =~= string_views(rest@));
}

pub fn diff_tool_command(tool: &str, rest: &Vec<String>) -> (r: Option<Vec<String>>)
    ensures
        match r {
            Some(c) => tool_command_spec(tool@, string_views(rest@)) == Some(string_views(c@)),
            None => tool_command_spec(tool@, string_views(rest@)) is None,
        },
{
    let mut c = if str_eq(tool, "lumen") {
        v3("lumen", "diff", "--watch")
    } else if str_eq(tool, "gitui") {
        let mut v: Vec<String> = Vec::new();
        v.push(String::from_str("gitui"));
        assert(string_views(v@) =~= seq!["gitui"@]);
        v
    } else if str_eq(tool, "tig") {
        let mut v: Vec<String> = Vec::new();
        v.push(String::from_str("tig"));
        assert(string_views(v@) =~= seq!["tig"@]);
        v
    } else {
        return None;
    };
    append_all(&mut c, rest);
    Some(c)
}

/// The arguments of `git diff`: the remaining ones, or, when there are none, the default
/// branch when the worktree is on another branch.
pub open spec fn diff_args_spec(rest: Seq<Seq<char>>, base_branch: Option<Seq<char>>, current: CmdResult) -> Seq<Seq<char>> {
    let cur = trim(current.stdout@);
    seq!["diff"@] + rest + match base_branch {
        Some(b) => if rest.len() == 0 && current.status == 0 && cur.len() > 0 && cur != b {
            seq![b]
        } else {
            seq![]
        },
        None => seq![],
    }
}

pub fn diff_git_args(rest: &Vec<String>, base_branch: Option<&str>, current: &CmdResult) -> (r: Vec<String>)
    ensures
        string_views(r@) == diff_args_spec(string_views(rest@), match base_branch {
            Some(b) => Some(b@),
            None => None,
        }, *current),
{
    let mut v: Vec<String> = Vec::new();
    v.push(String::from_str("diff"));
    assert(string_views(v@) =~= seq!["diff"@]);
    append_all(&mut v, rest);
    let ghost v1 = string_views(v@);
    match base_branch {
        Some(b) => {
            let cur = trim_chars(&chars_of(current.stdout.as_str()));
            if rest.len() == 0 && current.status == 0 && cur.len() > 0 && !crate::text::text_eq(&cur, b) {
                v.push(String::from_str(b));
                assert(string_views(v@) =~= v1.push(b@));
            }
        },
        None => {},
    }
    assert(string_views(v@) =~= diff_args_spec(string_views(rest@), match base_branch {
        Some(b) => Some(b@),
        None => None,
    }, *current));
    v
}

/// The subcommands of `wt pr`.
#[derive(PartialEq, Eq, Structural, Clone, Copy)]
pub enum PrAction {
    Add,
    Checkout,
    Other,
}

/// Why `wt pr`'s arguments were refused: too few, or a number with something other than
/// digits.
pub enum PrArgsError {
    Usage,
    NotDigits(String),
}

pub struct PrArgs {
    pub action: PrAction,
    pub number: String,
}

pub fn parse_pr_args(args: &Vec<String>) -> (r: Result<PrArgs, PrArgsError>)
    ensures
        ({
            let a = string_views(args@);
            if a.len() < 2 {
                r matches Err(PrArgsError::Usage)
            } else if !all_digits(a[1]) {
                r matches Err(PrArgsError::NotDigits(n)) && n@ == a[1]
            } else {
                r matches Ok(p) && p.number@ == a[1] && p.action == (if a[0] == "add"@ {
                    PrAction::Add
                } else if a[0] == "co"@ {
                    PrAction::Checkout
                } else {
                    PrAction::Other
                })
            }
        }),
{
    if args.len() < 2 {
        return Err(PrArgsError::Usage);
    }
    let n = chars_of(args[1].as_str());
    let mut ok = true;
    for i in 0..n.len()
        invariant
            ok == (forall|k: int| 0 <= k < i ==> crate::text::is_digit(#[trigger] n@[k])),
    {
        if !('0' <= n[i] && n[i] <= '9') {
            ok = false;
        }
    }
    if !ok {
        return Err(PrArgsError::NotDigits(args[1].clone()));
    }
    let s = args[0].as_str();
    let action = if str_eq(s, "add") {
        PrAction::Add
    } else if str_eq(s, "co") {
        PrAction::Checkout
    } else {
        PrAction::Other
    };
    Ok(PrArgs { action, number: args[1].clone() })
}

/// `gh pr view <n> --json number,headRefName`: whether the pull request exists, and its
/// branch.
pub fn pr_view_command(number: &str) -> (r: Vec<String>)
    ensures
        string_views(r@) == seq!["gh"@, "pr"@, "view"@, number@, "--json"@, "number,headRefName"@],
{
    v6("gh", "pr", "view", number, "--json", "number,headRefName")
}

/// The branch a pull request's worktree uses: its head branch when `gh` names one, else
/// `pr-<n>`.
pub open spec fn pr_branch_spec(view: JsonValue, number: Seq<char>) -> Seq<char> {
    match text_of(json_get(view, "headRefName"@)) {
        Some(h) => if h.len() > 0 {
            h
        } else {
            "pr-"@ + number
        },
        None => "pr-"@ + number,
    }
}

pub fn pr_branch(view: &JsonValue, number: &str) -> (r: String)
    ensures
        r@ == pr_branch_spec(*view, number@),
{
    match crate::pr::get_member(view, "headRefName") {
        Some(JsonValue::Str(h)) => {
            if h.as_str().unicode_len() > 0 {
                return h.clone();
            }
        },
        _ => {},
    }
    cat("pr-", number)
}

/// `git fetch origin pull/<n>/head:<branch>`: the pull request's commits as the branch.
pub fn pr_fetch_command(number: &str, branch: &str) -> (r: Vec<String>)
    ensures
        string_views(r@) == seq!["git"@, "fetch"@, "origin"@, "pull/"@ + number@ + "/head:"@ + branch@],
{
    let mut refspec = cat("pull/", number);
    refspec.append("/head:");
    refspec.append(branch);
    let mut v = v3("git", "fetch", "origin");
    let ghost v0 = string_views(v@);
    v.push(refspec);
    assert(string_views(v@) =~= v0.push("pull/"@ + number@ + "/head:"@ + branch@));
    v
}

/// `git stash push -u -m "easy-worktree stash for <name>"`.
pub fn stash_push_command(name: &str) -> (r: Vec<String>)
    ensures
        string_views(r@) == seq!["git"@, "stash"@, "push"@, "-u"@, "-m"@, "easy-worktree stash for "@ + name@],
{
    let m = cat("easy-worktree stash for ", name);
    v6("git", "stash", "push", "-u", "-m", m.as_str())
}

/// `git status --porcelain` reported changes.
pub fn has_changes(status: &CmdResult) -> (r: bool)
    ensures
        r == (trim(status.stdout@).len() > 0),
{
    trim_chars(&chars_of(status.stdout.as_str())).len() > 0
}

/// The start point of the stash's new branch: the one given, else the current branch
/// when git names it.
pub fn stash_base(given: Option<&str>, current: &CmdResult) -> (r: Option<String>)
    ensures
        opt_seq(r) == match given {
            Some(g) => Some(g@),
            None => if current.status == 0 {
                Some(trim(current.stdout@))
            } else {
                None
            },
        },
{
    match given {
        Some(g) => Some(String::from_str(g)),
        None => {
            if current.status == 0 {
                Some(string_of(&trim_chars(&chars_of(current.stdout.as_str()))))
            } else {
                None
            }
        },
    }
}

/// The arguments of `wt clone`.
pub struct CloneArgs {
    pub bare: bool,
    pub url: String,
    pub dest: String,
}

/// The words of `wt clone` other than `--bare`.
pub open spec fn clone_words(a: Seq<Seq<char>>) -> Seq<Seq<char>>
    decreases a.len(),
{
    if a.len() == 0 {
        seq![]
    } else if a.last() == "--bare"@ {
        clone_words(a.drop_last())
    } else {
        clone_words(a.drop_last()).push(a.last())
    }
}

/// The arguments of `wt clone`: `None` (the usage error) without a repository; else the
/// destination given, or the repository's name (with `.git` for a bare clone).
pub fn parse_clone_args(args: &Vec<String>) -> (r: Option<CloneArgs>)
    ensures
        ({
            let a = string_views(args@);
            let w = clone_words(a);
            match r {
                None => w.len() == 0,
                Some(c) => w.len() > 0 && c.bare == a.contains("--bare"@) && c.url@ == w[0] && c.dest@
                    == (if w.len() > 1 {
                    w[1]
                } else if c.bare {
                    repository_name_spec(w[0]) + ".git"@
                } else {
                    repository_name_spec(w[0])
                }),
            }
        }),
{
    let ghost a = string_views(args@);
    let mut bare = false;
    let mut words: Vec<String> = Vec::new();
    for i in 0..args.len()
        invariant
            a == string_views(args@),
            bare == a.take(i as int).contains("--bare"@),
            string_views(words@) == clone_words(a.take(i as int)),
    {
        let w = args[i].as_str();
        assert(a.take(i + 1).drop_last() =~= a.take(i as int));
        assert(a.take(i + 1) =~= a.take(i as int).push(w@));
        proof {
            crate::text::lemma_contains_push(a.take(i as int), w@, "--bare"@);
        }
        if str_eq(w, "--bare") {
            bare = true;
        } else {
            let ghost w0 = string_views(words@);
            words.push(args[i].clone());
            assert(string_views(words@) =~= w0.push(w@));
        }
    }
    assert(a.take(args.len() as int) =~= a);
    if words.len() == 0 {
        return None;
    }
    let url = words[0].clone();
    let dest = if words.len() > 1 {
        words[1].clone()
    } else if bare {
        let mut n = get_repository_name(url.as_str());
        n.append(".git");
        n
    } else {
        get_repository_name(url.as_str())
    };
    Some(CloneArgs { bare, url, dest })
}

/// `git clone [--bare] <url> <dest>`.
pub fn clone_command(c: &CloneArgs) -> (r: Vec<String>)
    ensures
        string_views(r@) == seq!["git"@, "clone"@] + (if c.bare {
            seq!["--bare"@]
        } else {
            seq![]
        }) + seq![c.url@, c.dest@],
{
    let mut v = v2("git", "clone");
    let ghost v0 = string_views(v@);
    if c.bare {
        v.push(String::from_str("--bare"));
    }
    let ghost v1 = string_views(v@);
    v.push(c.url.clone());
    v.push(c.dest.clone());
    assert(string_views(v@) =~= v1 + seq![c.url@, c.dest@]);
    assert(string_views(v@) =~= seq!["git"@, "clone"@] + (if c.bare {
        seq!["--bare"@]
    } else {
        seq![]
    }) + seq![c.url@, c.dest@]);
    v
}

/// `git --git-dir=<base> worktree add <path> <branch>`: the base worktree of a bare
/// repository.
pub fn base_worktree_command(base_dir: &str, path: &str, branch: &str) -> (r: Vec<String>)
    ensures
        string_views(r@) == seq!["git"@, "--git-dir="@ + base_dir@, "worktree"@, "add"@, path@, branch@],
{
    let g = cat("--git-dir=", base_dir);
    v6("git", g.as_str(), "worktree", "add", path, branch)
}

/// The arguments of `wt config`: where to write, and the key and value if given.
pub struct ConfigArgs {
    pub global: bool,
    pub local: bool,
    pub rest: Vec<String>,
}

pub open spec fn config_rest(a: Seq<Seq<char>>) -> Seq<Seq<char>>
    decreases a.len(),
{
    if a.len() == 0 {
        seq![]
    } else if a.last() == "--global"@ || a.last() == "--local"@ {
        config_rest(a.drop_last())
    } else {
        config_rest(a.drop_last()).push(a.last())
    }
}

pub fn parse_config_args(args: &Vec<String>) -> (r: ConfigArgs)
    ensures
        r.global == string_views(args@).contains("--global"@),
        r.local == string_views(args@).contains("--local"@),
        string_views(r.rest@) == config_rest(string_views(args@)),
{
    let ghost a = string_views(args@);
    let mut global = false;
    let mut local = false;
    let mut rest: Vec<String> = Vec::new();
    for i in 0..args.len()
        invariant
            a == string_views(args@),
            global == a.take(i as int).contains("--global"@),
            local == a.take(i as int).contains("--local"@),
            string_views(rest@) == config_rest(a.take(i as int)),
    {
        let w = args[i].as_str();
        assert(a.take(i + 1).drop_last() =~= a.take(i as int));
        assert(a.take(i + 1) =~= a.take(i as int).push(w@));
        proof {
            crate::text::lemma_contains_push(a.take(i as int), w@, "--global"@);
            crate::text::lemma_contains_push(a.take(i as int), w@, "--local"@);
        }
        let g = str_eq(w, "--global");
        let l = str_eq(w, "--local");
        if g {
            global = true;
        }
        if l {
            local = true;
        }
        if !g && !l {
            let ghost r0 = string_views(rest@);
            rest.push(args[i].clone());
            assert(string_views(rest@) =~= r0.push(w@));
        }
    }
    assert(a.take(args.len() as int) =~= a);
    ConfigArgs { global, local, rest }
}


/// What `wt config <key>` prints for the value under `key`: a table or an array as a TOML
/// document holding it under `key` (without surrounding blanks), a string as it is, and
/// any other value as inline TOML.
pub open spec fn config_value_text_spec(v: Cfg, key: Seq<char>) -> Seq<char> {
    match v {
        Cfg::Table(_) => trim(toml_render(Cfg::Table(seq![(key, v)]))),
        Cfg::Array(_) => trim(toml_render(Cfg::Table(seq![(key, v)]))),
        Cfg::Str(s) => s,
        _ => toml_inline(v),
    }
}

pub fn config_value_text(value: &ConfigValue, key: &str) -> (r: String)
    ensures
        r@ == config_value_text_spec(value@, key@),
{
    match value {
        ConfigValue::Table(_) | ConfigValue::Array(_) => {
            let mut es: Vec<(String, ConfigValue)> = Vec::new();
            es.push((crate::config::owned(key), copy_value(value)));
            proof {
                crate::config::lemma_view_entries(es@);
            }
            assert(crate::config::view_entries(es@) =~= seq![(key@, value@)]);
            let doc = render_toml(&ConfigValue::Table(es));
            string_of(&trim_chars(&chars_of(doc.as_str())))
        },
        ConfigValue::Str(s) => crate::config::owned(s.as_str()),
        _ => write_toml_inline(value),
    }
}

/// What `wt config` prints for a whole configuration: its TOML document without
/// surrounding blanks.
pub fn config_document_text(config: &ConfigValue) -> (r: String)
    ensures
        r@ == trim(toml_render(config@)),
{
    let doc = render_toml(config);
    string_of(&trim_chars(&chars_of(doc.as_str())))
}

/// The configuration `wt config` shows outside a repository: the built-in one with the
/// file's (when it reads as TOML) merged in.
pub fn config_outside_repo(text: Option<&str>) -> (r: ConfigValue)
    ensures
        r@ == (match str_opt_view(text) {
            Some(t) => match toml_value(t) {
                Some(v) => merge(default_config_spec(), v),
                None => default_config_spec(),
            },
            None => default_config_spec(),
        }),
{
    let mut cfg = default_config();
    match text {
        Some(t) => match parse_toml(t) {
            Some(v) => deep_merge(&mut cfg, v),
            None => {},
        },
        None => {},
    }
    cfg
}

} // verus!
