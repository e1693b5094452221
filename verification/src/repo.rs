use vstd::prelude::*;
use crate::git::{WorktreeEntry, opt_view};
use crate::messages::{m0, m1, msg_spec};
use crate::order::{first_true, lemma_first_true_at, lemma_first_true_none};
use crate::paths::{file_name, parent, path_file_name, path_parent};
use crate::text::{contains, contains_chars, chars_of, ends_with, str_eq, string_of, string_views};

verus! {

/// A non-bare worktree on the default branch whose directory exists.
pub open spec fn on_default(es: Seq<WorktreeEntry>, exists: Seq<bool>, d: Seq<char>) -> spec_fn(int) -> bool {
    |i: int| !es[i].is_bare && opt_view(es[i].branch) == Some(d) && exists[i]
}

/// A non-bare worktree whose directory exists.
pub open spec fn usable(es: Seq<WorktreeEntry>, exists: Seq<bool>) -> spec_fn(int) -> bool {
    |i: int| !es[i].is_bare && exists[i]
}

/// The worktree `get_preferred_non_bare_worktree` picks: the first usable one on the
/// default branch, else the first usable one; -1 when none is.
pub open spec fn preferred_index(default_branch: Option<Seq<char>>, es: Seq<WorktreeEntry>, exists: Seq<bool>) -> int {
    let n = es.len() as int;
    match default_branch {
        Some(d) => if first_true(n, on_default(es, exists, d)) >= 0 {
            first_true(n, on_default(es, exists, d))
        } else {
            first_true(n, usable(es, exists))
        },
        None => first_true(n, usable(es, exists)),
    }
}

fn first_on_default(d: &str, es: &Vec<WorktreeEntry>, exists: &Vec<bool>) -> (r: Option<usize>)
    requires
        es.len() == exists.len(),
    ensures
        match r {
            Some(i) => first_true(es.len() as int, on_default(es@, exists@, d@)) == i && i < es.len(),
            None => first_true(es.len() as int, on_default(es@, exists@, d@)) == -1,
        },
{
    let ghost p = on_default(es@, exists@, d@);
    for i in 0..es.len()
        invariant
            es.len() == exists.len(),
            p == on_default(es@, exists@, d@),
            forall|k: int| 0 <= k < i ==> !#[trigger] p(k),
    {
        let e = &es[i];
        let hit = !e.is_bare && exists[i] && match &e.branch {
            Some(b) => str_eq(b.as_str(), d),
            None => false,
        };
        if hit {
            proof {
                lemma_first_true_at(es.len() as int, p, i as int);
            }
            return Some(i);
        }
        assert(!p(i as int));
    }
    proof {
        lemma_first_true_none(es.len() as int, p);
    }
    None
}

fn first_usable(es: &Vec<WorktreeEntry>, exists: &Vec<bool>) -> (r: Option<usize>)
    requires
        es.len() == exists.len(),
    ensures
        match r {
            Some(i) => first_true(es.len() as int, usable(es@, exists@)) == i && i < es.len(),
            None => first_true(es.len() as int, usable(es@, exists@)) == -1,
        },
{
    let ghost p = usable(es@, exists@);
    for i in 0..es.len()
        invariant
            es.len() == exists.len(),
            p == usable(es@, exists@),
            forall|k: int| 0 <= k < i ==> !#[trigger] p(k),
    {
        if !es[i].is_bare && exists[i] {
            proof {
                lemma_first_true_at(es.len() as int, p, i as int);
            }
            return Some(i);
        }
    }
    proof {
        lemma_first_true_none(es.len() as int, p);
    }
    None
}

/// `get_preferred_non_bare_worktree`: the resolved path of the worktree to treat as the
/// home of a bare repository. `resolved[i]` and `exists[i]` are what the file system says
/// of entry `i`'s path.
pub fn get_preferred_non_bare_worktree(
    default_branch: Option<&str>,
    entries: &Vec<WorktreeEntry>,
    resolved: &Vec<String>,
    exists: &Vec<bool>,
) -> (r: Option<String>)
    requires
        entries.len() == resolved.len(),
        entries.len() == exists.len(),
    ensures
        ({
            let i = preferred_index(match default_branch {
                Some(d) => Some(d@),
                None => None,
            }, entries@, exists@);
            match r {
                Some(p) => 0 <= i < entries.len() && p@ == resolved@[i]@,
                None => i < 0,
            }
        }),
{
    match default_branch {
        Some(d) => match first_on_default(d, entries, exists) {
            Some(i) => {
                return Some(resolved[i].clone());
            },
            None => {},
        },
        None => {},
    }
    match first_usable(entries, exists) {
        Some(i) => Some(resolved[i].clone()),
        None => None,
    }
}

/// The repository directory of a git directory: its parent when it is a `.git` directory.
pub open spec fn base_of_git_dir(git_dir: Seq<char>) -> Option<Seq<char>> {
    if path_file_name(git_dir) == Some(".git"@) {
        path_parent(git_dir)
    } else {
        Some(git_dir)
    }
}

pub fn base_dir_from_git_dir(git_dir: &str) -> (r: Option<String>)
    ensures
        opt_view(r) == base_of_git_dir(git_dir@),
{
    let is_dot_git = match file_name(git_dir) {
        Some(n) => str_eq(n.as_str(), ".git"),
        None => false,
    };
    if is_dot_git {
        parent(git_dir)
    } else {
        Some(String::from_str(git_dir))
    }
}

/// What `wt init` does: fail outside a repository; for a bare one, first make sure it has
/// a base worktree; then write the hook templates.
pub enum InitPlan {
    Fail(String),
    Setup { ensure_base_worktree: bool },
}

pub fn cmd_init(base_dir: Option<&str>, is_bare: bool, japanese: bool) -> (r: InitPlan)
    ensures
        match r {
            InitPlan::Fail(m) => base_dir is None && m@ == msg_spec(
                "error"@,
                seq![msg_spec("not_git_repo"@, seq![], japanese)],
                japanese,
            ),
            InitPlan::Setup { ensure_base_worktree } => base_dir is Some && ensure_base_worktree
                == is_bare,
        },
{
    match base_dir {
        None => {
            let inner = m0("not_git_repo", japanese);
            InitPlan::Fail(m1("error", inner.as_str(), japanese))
        },
        Some(_) => InitPlan::Setup { ensure_base_worktree: is_bare },
    }
}

/// The ignore file after making sure it lists each entry: every missing entry is added
/// on a line of its own (after a line break, if the text does not end with one).
pub open spec fn with_entries(content: Seq<char>, entries: Seq<Seq<char>>) -> Seq<char>
    decreases entries.len(),
{
    if entries.len() == 0 {
        content
    } else {
        let c = with_entries(content, entries.drop_last());
        let e = entries.last();
        if contains(c, e) {
            c
        } else {
            (if c.len() > 0 && c.last() != '\n' {
                c.push('\n')
            } else {
                c
            }) + e + seq!['\n']
        }
    }
}

/// The update of an ignore file by `wt init`: the new text, and whether it
/// changed.
pub fn add_missing_entries(content: &str, entries: &Vec<String>) -> (r: (String, bool))
    ensures
        r.0@ == with_entries(content@, string_views(entries@)),
        r.1 == (r.0@ != content@),
{
    let ghost ev = string_views(entries@);
    let mut c = chars_of(content);
    for i in 0..entries.len()
        invariant
            ev == string_views(entries@),
            c@ == with_entries(content@, ev.take(i as int)),
            c@.len() >= content@.len(),
            c@ != content@ ==> c@.len() > content@.len(),
    {
        assert(ev.take(i + 1).drop_last() =~= ev.take(i as int));
        let e = chars_of(entries[i].as_str());
        if !contains_chars(&c, &e) {
            if c.len() > 0 && c[c.len() - 1] != '\n' {
                c.push('\n');
            }
            crate::text::extend_chars(&mut c, &e);
            c.push('\n');
        }
    }
    assert(ev.take(entries.len() as int) =~= ev);
    let changed = c.len() != content.unicode_len();
    (string_of(&c), changed)
}

/// The repository name the configuration fills in: the last component of the repository's directory,
/// without a trailing `.git`.
pub open spec fn config_repo_name_spec(base_dir: Seq<char>) -> Seq<char> {
    let n = match path_file_name(base_dir) {
        Some(n) => n,
        None => seq![],
    };
    if ends_with(n, ".git"@) {
        n.take(n.len() - 4)
    } else {
        n
    }
}

pub fn config_repo_name(base_dir: &str) -> (r: String)
    ensures
        r@ == config_repo_name_spec(base_dir@),
{
    let n = match file_name(base_dir) {
        Some(n) => n,
        None => String::new(),
    };
    let c = chars_of(n.as_str());
    proof {
        reveal_strlit(".git");
    }
    if crate::text::ends_with_chars(&c, &chars_of(".git")) {
        string_of(&crate::text::take_chars(&c, c.len() - 4))
    } else {
        n
    }
}

/// The configuration assembled: the built-in one with each file read merged
/// in turn, then `{repo_name}` filled in when the name is not empty.
pub open spec fn merged_config(files: Seq<crate::config::Cfg>) -> crate::config::Cfg
    decreases files.len(),
{
    if files.len() == 0 {
        crate::config::default_config_spec()
    } else {
        crate::config::merge(merged_config(files.drop_last()), files.last())
    }
}

pub open spec fn assembled_config(files: Seq<crate::config::Cfg>, repo_name: Seq<char>) -> crate::config::Cfg {
    if repo_name.len() > 0 {
        crate::config::resolve(merged_config(files), repo_name)
    } else {
        merged_config(files)
    }
}

pub open spec fn cfg_views(v: Seq<crate::config::ConfigValue>) -> Seq<crate::config::Cfg> {
    Seq::new(v.len(), |i: int| v[i]@)
}

/// The last step of loading the configuration: the files read (in the order project, local, global),
/// merged over the built-in configuration.
pub fn assemble_config(files: Vec<crate::config::ConfigValue>, repo_name: &str) -> (r: crate::config::ConfigValue)
    ensures
        r@ == assembled_config(cfg_views(files@), repo_name@),
{
    let ghost fv = cfg_views(files@);
    let mut config = crate::config::default_config();
    let mut rest = files;
    let n = rest.len();
    let mut i: usize = 0;
    assert(fv.take(0) =~= Seq::<crate::config::Cfg>::empty());
    while i < n
        invariant
            n == fv.len(),
            i <= n,
            rest@.len() == n - i,
            forall|k: int| 0 <= k < rest@.len() ==> #[trigger] rest@[k]@ == fv[i + k],
            config@ == merged_config(fv.take(i as int)),
        decreases n - i,
    {
        let f = rest.remove(0);
        assert(f@ == fv[i as int]);
        assert(fv.take(i + 1).drop_last() =~= fv.take(i as int));
        crate::config::deep_merge(&mut config, f);
        i = i + 1;
    }
    assert(fv.take(n as int) =~= fv);
    if repo_name.unicode_len() > 0 {
        crate::config::resolve_templates(&mut config, repo_name);
    }
    config
}

/// Where the setup files come from, before the file system is asked: a configured
/// absolute directory as it is, a configured relative one below the repository (still to
/// be resolved), the repository itself when it is not bare, or else a search among the
/// worktrees.
pub enum SourceStep {
    Use(String),
    Resolve(String),
    Search,
}

pub fn setup_source_start(configured: Option<&str>, base_dir: &str, is_bare: bool) -> (r: SourceStep)
    ensures
        match configured {
            Some(c) if c@.len() > 0 => if crate::paths::is_absolute_spec(c@) {
                r matches SourceStep::Use(p) && p@ == c@
            } else {
                r matches SourceStep::Resolve(p) && p@ == crate::paths::join_spec(base_dir@, c@)
            },
            _ => if !is_bare {
                r matches SourceStep::Use(p) && p@ == base_dir@
            } else {
                r is Search
            },
        },
{
    match configured {
        Some(c) => {
            if c.unicode_len() > 0 {
                if crate::paths::is_absolute(c) {
                    return SourceStep::Use(String::from_str(c));
                } else {
                    return SourceStep::Resolve(crate::paths::path_join(base_dir, c));
                }
            }
        },
        None => {},
    }
    if !is_bare {
        SourceStep::Use(String::from_str(base_dir))
    } else {
        SourceStep::Search
    }
}

/// A worktree that can give a bare repository's new worktree its setup files: not bare,
/// present, and not the new worktree itself.
pub open spec fn source_candidate(es: Seq<WorktreeEntry>, resolved: Seq<String>, exists: Seq<bool>, target: Seq<char>) -> spec_fn(int) -> bool {
    |i: int| !es[i].is_bare && exists[i] && !crate::paths::path_equal(resolved[i]@, target)
}

/// The search: the preferred worktree unless it is the target, else the first candidate.
pub fn pick_setup_source(
    target: &str,
    preferred: Option<&str>,
    entries: &Vec<WorktreeEntry>,
    resolved: &Vec<String>,
    exists: &Vec<bool>,
) -> (r: Option<String>)
    requires
        entries.len() == resolved.len(),
        entries.len() == exists.len(),
    ensures
        ({
            let i = first_true(entries.len() as int, source_candidate(entries@, resolved@, exists@, target@));
            match preferred {
                Some(p) if !crate::paths::path_equal(p@, target@) => r matches Some(x) && x@ == p@,
                _ => match r {
                    Some(x) => i >= 0 && x@ == resolved@[i]@,
                    None => i < 0,
                },
            }
        }),
{
    match preferred {
        Some(p) => {
            if !crate::paths::same_path(p, target) {
                return Some(String::from_str(p));
            }
        },
        None => {},
    }
    let ghost pr = source_candidate(entries@, resolved@, exists@, target@);
    for i in 0..entries.len()
        invariant
            entries.len() == resolved.len(),
            entries.len() == exists.len(),
            pr == source_candidate(entries@, resolved@, exists@, target@),
            forall|k: int| 0 <= k < i ==> !#[trigger] pr(k),
            match preferred {
                Some(p) => crate::paths::path_equal(p@, target@),
                None => true,
            },
    {
        if !entries[i].is_bare && exists[i] && !crate::paths::same_path(resolved[i].as_str(), target) {
            proof {
                lemma_first_true_at(entries.len() as int, pr, i as int);
            }
            return Some(resolved[i].clone());
        }
    }
    proof {
        lemma_first_true_none(entries.len() as int, pr);
    }
    None
}

proof fn lemma_contains_at(s: Seq<char>, p: Seq<char>, i: int)
    requires
        0 <= i <= s.len(),
        crate::text::starts_with(s.skip(i), p),
    ensures
        contains(s, p),
    decreases i,
{
    if i == 0 {
        assert(s.skip(0) =~= s);
    } else if !crate::text::starts_with(s, p) {
        assert(s.drop_first().skip(i - 1) =~= s.skip(i));
        lemma_contains_at(s.drop_first(), p, i - 1);
    }
}

proof fn lemma_contains_append(s: Seq<char>, t: Seq<char>, p: Seq<char>)
    requires
        contains(s, p),
    ensures
        contains(s + t, p),
{
    crate::text::lemma_find_pat_bounds(s, p);
    let i = crate::text::find_pat(s, p);
    assert((s + t).skip(i).take(p.len() as int) =~= s.skip(i).take(p.len() as int));
    lemma_contains_at(s + t, p, i);
}

proof fn lemma_contains_entry_line(c: Seq<char>, e: Seq<char>)
    ensures
        contains(c + e + seq!['\n'], e),
{
    let r = c + e + seq!['\n'];
    assert(r.skip(c.len() as int).take(e.len() as int) =~= e);
    lemma_contains_at(r, e, c.len() as int);
}

/// After `wt init` updates an ignore file, it lists every entry.
pub proof fn lemma_ignore_lists_every_entry(content: Seq<char>, entries: Seq<Seq<char>>)
    ensures
        forall|k: int| 0 <= k < entries.len() ==> contains(with_entries(content, entries), #[trigger] entries[k]),
    decreases entries.len(),
{
    if entries.len() > 0 {
        let rest = entries.drop_last();
        lemma_ignore_lists_every_entry(content, rest);
        let w = with_entries(content, rest);
        let e = entries.last();
        if !contains(w, e) {
            let w2 = if w.len() > 0 && w.last() != '\n' {
                w.push('\n')
            } else {
                w
            };
            assert forall|k: int| 0 <= k < entries.len() implies contains(
                with_entries(content, entries),
                #[trigger] entries[k],
            ) by {
                if k < entries.len() - 1 {
                    assert(entries[k] == rest[k]);
                    if w.len() > 0 && w.last() != '\n' {
                        assert(w.push('\n') =~= w + seq!['\n']);
                        lemma_contains_append(w, seq!['\n'], entries[k]);
                    }
                    lemma_contains_append(w2, e + seq!['\n'], entries[k]);
                    assert(w2 + (e + seq!['\n']) =~= w2 + e + seq!['\n']);
                } else {
                    lemma_contains_entry_line(w2, e);
                }
            }
        } else {
            assert forall|k: int| 0 <= k < entries.len() implies contains(
                with_entries(content, entries),
                #[trigger] entries[k],
            ) by {
                if k < entries.len() - 1 {
                    assert(entries[k] == rest[k]);
                }
            }
        }
    }
}

proof fn lemma_ignore_unchanged(content: Seq<char>, entries: Seq<Seq<char>>)
    requires
        forall|k: int| 0 <= k < entries.len() ==> contains(content, #[trigger] entries[k]),
    ensures
        with_entries(content, entries) == content,
    decreases entries.len(),
{
    if entries.len() > 0 {
        let rest = entries.drop_last();
        assert forall|k: int| 0 <= k < rest.len() implies contains(content, #[trigger] rest[k]) by {
            assert(rest[k] == entries[k]);
        }
        lemma_ignore_unchanged(content, rest);
        assert(contains(content, entries[entries.len() - 1]));
    }
}

/// Updating an ignore file a second time changes nothing: the entries are added once.
pub proof fn lemma_ignore_update_idempotent(content: Seq<char>, entries: Seq<Seq<char>>)
    ensures
        with_entries(with_entries(content, entries), entries) == with_entries(content, entries),
{
    lemma_ignore_lists_every_entry(content, entries);
    lemma_ignore_unchanged(with_entries(content, entries), entries);
}


/// The configuration files that could be read and read as TOML, as values, in order.
pub open spec fn read_files(texts: Seq<Option<Seq<char>>>) -> Seq<crate::config::Cfg>
    decreases texts.len(),
{
    if texts.len() == 0 {
        seq![]
    } else {
        let rest = read_files(texts.drop_last());
        match texts.last() {
            Some(t) => match crate::formats::toml_value(t) {
                Some(v) => rest.push(v),
                None => rest,
            },
            None => rest,
        }
    }
}

pub open spec fn opt_texts(texts: Seq<Option<String>>) -> Seq<Option<Seq<char>>> {
    Seq::new(texts.len(), |i: int| crate::git::opt_view(texts[i]))
}

/// Whether a configuration file failed to load: it could not be read, or it is not TOML.
pub open spec fn load_failed(text: Option<Seq<char>>) -> bool {
    match text {
        Some(t) => crate::formats::toml_value(t) is None,
        None => true,
    }
}

/// The configuration from the files found (in the order project, local, global), each
/// given by its text or by nothing when it could not be read: those that read as TOML
/// merged over the built-in configuration, `{repo_name}` filled in; and, for each file,
/// whether it failed to load.
pub fn config_from_texts(texts: &Vec<Option<String>>, repo_name: &str) -> (r: (crate::config::ConfigValue, Vec<bool>))
    ensures
        r.0@ == assembled_config(read_files(opt_texts(texts@)), repo_name@),
        r.1@.len() == texts@.len(),
        forall|i: int| 0 <= i < texts@.len() ==> #[trigger] r.1@[i] == load_failed(
            crate::git::opt_view(texts@[i]),
        ),
{
    let ghost tv = opt_texts(texts@);
    let mut files: Vec<crate::config::ConfigValue> = Vec::new();
    let mut failed: Vec<bool> = Vec::new();
    for i in 0..texts.len()
        invariant
            tv == opt_texts(texts@),
            cfg_views(files@) == read_files(tv.take(i as int)),
            failed@.len() == i,
            forall|k: int| 0 <= k < i ==> #[trigger] failed@[k] == load_failed(
                crate::git::opt_view(texts@[k]),
            ),
    {
        assert(tv.take(i + 1).drop_last() =~= tv.take(i as int));
        assert(tv[i as int] == crate::git::opt_view(texts@[i as int]));
        let parsed = match &texts[i] {
            Some(t) => crate::formats::parse_toml(t.as_str()),
            None => None,
        };
        match parsed {
            Some(v) => {
                let ghost before = files@;
                files.push(v);
                assert(cfg_views(files@) =~= cfg_views(before).push(files@.last()@));
                failed.push(false);
            },
            None => {
                failed.push(true);
            },
        }
    }
    assert(tv.take(texts.len() as int) =~= tv);
    (assemble_config(files, repo_name), failed)
}

} // verus!
