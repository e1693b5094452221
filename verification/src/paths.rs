use vstd::prelude::*;
use crate::config::owned;
use crate::text::{after_last, after_last_chars, after_last_start, has_char, last_index, trim_end_char, trim_end_char_chars, chars_of, concat_chars, contains, contains_chars, ends_with, ends_with_chars, skip_chars, starts_with, str_eq, string_of, take_chars};

verus! {

/// What `Path::file_name` gives for a path (as text).
pub uninterp spec fn path_file_name(p: Seq<char>) -> Option<Seq<char>>;

/// What `Path::parent` gives for a path (as text).
pub uninterp spec fn path_parent(p: Seq<char>) -> Option<Seq<char>>;

/// What `Path::file_stem` gives for a path (as text).
pub uninterp spec fn path_file_stem(p: Seq<char>) -> Option<Seq<char>>;

/// What `Path::starts_with` gives for two paths.
pub uninterp spec fn path_has_prefix(p: Seq<char>, base: Seq<char>) -> bool;

/// What `==` on `Path` (component-wise comparison) gives for two paths.
pub uninterp spec fn path_equal(a: Seq<char>, b: Seq<char>) -> bool;

/// Calls `std::path::Path::file_name`; the result is named `path_file_name` of the path.
#[verifier::external_body]
pub(crate) fn file_name(p: &str) -> (r: Option<String>)
    ensures
        match r {
            Some(s) => path_file_name(p@) == Some(s@),
            None => path_file_name(p@) is None,
        },
{
    match std::path::Path::new(p).file_name() {
        Some(s) => Some(s.to_string_lossy().into_owned()),
        None => None,
    }
}

/// Calls `std::path::Path::parent`; the result is named `path_parent` of the path.
#[verifier::external_body]
pub(crate) fn parent(p: &str) -> (r: Option<String>)
    ensures
        match r {
            Some(s) => path_parent(p@) == Some(s@),
            None => path_parent(p@) is None,
        },
{
    match std::path::Path::new(p).parent() {
        Some(s) => Some(s.to_string_lossy().into_owned()),
        None => None,
    }
}

/// Calls `std::path::Path::file_stem`; the result is named `path_file_stem` of the path.
#[verifier::external_body]
pub(crate) fn file_stem(p: &str) -> (r: Option<String>)
    ensures
        match r {
            Some(s) => path_file_stem(p@) == Some(s@),
            None => path_file_stem(p@) is None,
        },
{
    match std::path::Path::new(p).file_stem() {
        Some(s) => Some(s.to_string_lossy().into_owned()),
        None => None,
    }
}

/// Calls `std::path::Path::starts_with` (whole components); named `path_has_prefix`.
/// The documentation also shows that every path starts with itself.
#[verifier::external_body]
pub(crate) fn has_prefix(p: &str, base: &str) -> (r: bool)
    ensures
        r == path_has_prefix(p@, base@),
        p@ == base@ ==> r,
{
    std::path::Path::new(p).starts_with(std::path::Path::new(base))
}

/// Calls `==` on `std::path::Path` (component-wise); named `path_equal`.
/// Equal text gives equal paths.
#[verifier::external_body]
pub(crate) fn paths_equal(a: &str, b: &str) -> (r: bool)
    ensures
        r == path_equal(a@, b@),
        a@ == b@ ==> r,
{
    std::path::Path::new(a) == std::path::Path::new(b)
}

/// `Path::is_absolute` on Unix: the path begins with `/`.
pub open spec fn is_absolute_spec(p: Seq<char>) -> bool {
    p.len() > 0 && p[0] == '/'
}

pub fn is_absolute(p: &str) -> (r: bool)
    ensures
        r == is_absolute_spec(p@),
{
    let c = chars_of(p);
    c.len() > 0 && c[0] == '/'
}

/// `Path::join` on Unix: an absolute `b` replaces `a`; otherwise `b` is appended,
/// with a `/` between them unless `a` is empty or already ends with one.
pub open spec fn join_spec(a: Seq<char>, b: Seq<char>) -> Seq<char> {
    if is_absolute_spec(b) {
        b
    } else if a.len() > 0 && a.last() != '/' {
        a + seq!['/'] + b
    } else {
        a + b
    }
}

/// `Path::join`.
pub fn path_join(a: &str, b: &str) -> (r: String)
    ensures
        r@ == join_spec(a@, b@),
{
    let ac = chars_of(a);
    let bc = chars_of(b);
    if bc.len() > 0 && bc[0] == '/' {
        return owned(b);
    }
    let mut out = ac.clone();
    if ac.len() > 0 && ac[ac.len() - 1] != '/' {
        out.push('/');
    }
    let r = concat_chars(&out, &bc);
    string_of(&r)
}

/// `expand_user`: a leading `~` stands for the home directory.
pub open spec fn expand_user_spec(path: Seq<char>, home: Seq<char>) -> Seq<char> {
    if path == seq!['~'] {
        home
    } else if starts_with(path, seq!['~', '/']) {
        join_spec(home, path.skip(2))
    } else {
        path
    }
}

/// `expand_user`, given the home directory.
pub fn expand_user(path: &str, home: &str) -> (r: String)
    ensures
        r@ == expand_user_spec(path@, home@),
{
    let pc = chars_of(path);
    if pc.len() == 1 && pc[0] == '~' {
        assert(pc@ =~= seq!['~']);
        return owned(home);
    }
    if pc.len() >= 2 && pc[0] == '~' && pc[1] == '/' {
        assert(pc@.take(2) =~= seq!['~', '/']);
        let rest = string_of(&skip_chars(&pc, 2));
        return path_join(home, rest.as_str());
    }
    proof {
        if starts_with(pc@, seq!['~', '/']) {
            assert(pc@.take(2)[0] == '~');
            assert(pc@.take(2)[1] == '/');
        }
        if pc@ == seq!['~'] {
            assert(pc@.len() == 1);
        }
    }
    owned(path)
}

/// Whether two resolved paths are the same path (component by component); the same text
/// always is.
pub fn same_path(a: &str, b: &str) -> (r: bool)
    ensures
        r == path_equal(a@, b@),
        a@ == b@ ==> r,
{
    paths_equal(a, b)
}

/// Whether a resolved path lies under `base` (whole components); a path lies under itself.
pub fn path_starts_with(path: &str, base: &str) -> (r: bool)
    ensures
        r == path_has_prefix(path@, base@),
        path@ == base@ ==> r,
{
    has_prefix(path, base)
}

} // verus!

verus! {

/// `Path::file_stem` of a name without `/` (neither empty, `.` nor `..`): the part before
/// the last `.`, unless there is none or it is empty, when it is the whole name.
pub open spec fn simple_stem(name: Seq<char>) -> Seq<char> {
    let i = last_index(name, '.');
    if i <= 0 {
        name
    } else {
        name.take(i)
    }
}

/// `get_repository_name`: the name a clone of `url` gets.
pub open spec fn repository_name_spec(url: Seq<char>) -> Seq<char> {
    let t = trim_end_char(url, '/');
    if has_char(t, '/') {
        let last = after_last(t, '/');
        let clean = if ends_with(last, ".git"@) {
            last.take(last.len() - 4)
        } else {
            last
        };
        after_last(clean, ':')
    } else if t.len() == 0 || t == seq!['.'] || t == seq!['.', '.'] {
        t
    } else {
        simple_stem(t)
    }
}

/// `get_repository_name`.
pub fn get_repository_name(url: &str) -> (r: String)
    ensures
        r@ == repository_name_spec(url@),
{
    let uc = chars_of(url);
    let t = trim_end_char_chars(&uc, '/');
    let j = after_last_start(&t, '/');
    if j > 0 {
        let last = skip_chars(&t, j);
        let git = chars_of(".git");
        let clean = if ends_with_chars(&last, &git) {
            proof {
                reveal_strlit(".git");
            }
            take_chars(&last, last.len() - 4)
        } else {
            last
        };
        let name = after_last_chars(&clean, ':');
        return string_of(&name);
    }
    if t.len() == 0 || (t.len() == 1 && t[0] == '.') || (t.len() == 2 && t[0] == '.' && t[1] == '.') {
        assert(t.len() == 1 && t[0] == '.' ==> t@ =~= seq!['.']);
        assert(t.len() == 2 && t[0] == '.' && t[1] == '.' ==> t@ =~= seq!['.', '.']);
        return string_of(&t);
    }
    assert(t@ != seq!['.']);
    assert(t@ != seq!['.', '.']);
    let k = after_last_start(&t, '.');
    if k <= 1 {
        string_of(&t)
    } else {
        string_of(&take_chars(&t, k - 1))
    }
}

} // verus!

verus! {

/// `Option::unwrap_or` for text.
pub open spec fn or_else(o: Option<Seq<char>>, d: Seq<char>) -> Seq<char> {
    match o {
        Some(s) => s,
        None => d,
    }
}

/// Where worktrees are created: beside the home worktree of a bare repository
/// (inside the configured directory, if one is named), inside the repository otherwise.
pub open spec fn worktrees_dir_spec(
    base_dir: Seq<char>,
    is_bare: bool,
    wt_home: Seq<char>,
    name: Seq<char>,
) -> Seq<char> {
    if is_bare {
        let base_parent = or_else(path_parent(wt_home), seq!['.']);
        if name.len() == 0 {
            base_parent
        } else {
            join_spec(base_parent, name)
        }
    } else {
        join_spec(base_dir, name)
    }
}

/// The directory that holds the worktrees (`wt_home` is used for bare repositories only).
pub fn worktrees_dir_for(base_dir: &str, is_bare: bool, wt_home: &str, name: &str) -> (r: String)
    ensures
        r@ == worktrees_dir_spec(base_dir@, is_bare, wt_home@, name@),
{
    if is_bare {
        let base_parent = match parent(wt_home) {
            Some(p) => p,
            None => owned("."),
        };
        proof {
            reveal_strlit(".");
        }
        assert(".".view() =~= seq!['.']);
        if name.unicode_len() == 0 {
            base_parent
        } else {
            path_join(base_parent.as_str(), name)
        }
    } else {
        path_join(base_dir, name)
    }
}

/// `target_path_for_selection`: `main` is the repository itself; any other name is a
/// worktree in the worktrees directory.
pub open spec fn target_path_spec(
    base_dir: Seq<char>,
    target: Seq<char>,
    is_bare: bool,
    wt_home: Seq<char>,
    name: Seq<char>,
) -> Seq<char> {
    if target == "main"@ {
        base_dir
    } else {
        join_spec(worktrees_dir_spec(base_dir, is_bare, wt_home, name), target)
    }
}

/// The directory of the worktree `target`: the repository itself for `main`, else the
/// worktree of that name in the worktrees directory.
pub fn target_path_for_selection(
    base_dir: &str,
    target: &str,
    is_bare: bool,
    wt_home: &str,
    worktrees_dir_name: &str,
) -> (r: String)
    ensures
        r@ == target_path_spec(base_dir@, target@, is_bare, wt_home@, worktrees_dir_name@),
{
    if str_eq(target, "main") {
        return owned(base_dir);
    }
    let dir = worktrees_dir_for(base_dir, is_bare, wt_home, worktrees_dir_name);
    path_join(dir.as_str(), target)
}

/// Where `wt add` puts the worktree `work_name`: in the worktrees directory, under its name.
pub open spec fn add_path_spec(
    base_dir: Seq<char>,
    is_bare: bool,
    wt_home: Seq<char>,
    name: Seq<char>,
    work_name: Seq<char>,
) -> Seq<char> {
    join_spec(worktrees_dir_spec(base_dir, is_bare, wt_home, name), work_name)
}

/// The path of a new worktree (`wt_home` is used for bare repositories only).
pub fn new_worktree_path(
    base_dir: &str,
    is_bare: bool,
    wt_home: &str,
    worktrees_dir_name: &str,
    work_name: &str,
) -> (r: String)
    ensures
        r@ == add_path_spec(base_dir@, is_bare, wt_home@, worktrees_dir_name@, work_name@),
{
    let dir = worktrees_dir_for(base_dir, is_bare, wt_home, worktrees_dir_name);
    path_join(dir.as_str(), work_name)
}

/// Law: selecting a worktree by the name it was added under goes to the path it was added
/// at, as long as the worktrees directory setting is the same; selecting `main` goes to the
/// repository itself.
pub proof fn lemma_selection_finds_added(
    base_dir: Seq<char>,
    work_name: Seq<char>,
    is_bare: bool,
    wt_home: Seq<char>,
    name: Seq<char>,
)
    ensures
        work_name != "main"@ ==> target_path_spec(base_dir, work_name, is_bare, wt_home, name)
            == add_path_spec(base_dir, is_bare, wt_home, name, work_name),
        target_path_spec(base_dir, "main"@, is_bare, wt_home, name) == base_dir,
{
}

/// `get_wt_home_dir`: the repository itself unless it is bare, else its preferred
/// non-bare worktree.
pub fn get_wt_home_dir(base_dir: &str, is_bare: bool, preferred: Option<String>) -> (r: Option<
    String,
>)
    ensures
        !is_bare ==> (r is Some && r->0@ == base_dir@),
        is_bare ==> r == preferred,
{
    if !is_bare {
        Some(owned(base_dir))
    } else {
        preferred
    }
}

/// `get_wt_dir`: the `.wt` directory of the home worktree.
pub fn get_wt_dir(wt_home: &str) -> (r: String)
    ensures
        r@ == join_spec(wt_home@, ".wt"@),
{
    path_join(wt_home, ".wt")
}

/// Where `wt` creates the base worktree of a bare repository: beside it, in a directory
/// named after it, under the branch name.
pub open spec fn base_worktree_path_spec(base_dir: Seq<char>, branch: Seq<char>) -> Seq<char> {
    let stem = or_else(path_file_stem(base_dir), "repo"@);
    let dir = or_else(path_parent(base_dir), seq!['.']);
    join_spec(join_spec(dir, stem), branch)
}

/// Where the base worktree of a bare repository goes.
pub fn base_worktree_path(base_dir: &str, branch: &str) -> (r: String)
    ensures
        r@ == base_worktree_path_spec(base_dir@, branch@),
{
    let stem = match file_stem(base_dir) {
        Some(s) => s,
        None => owned("repo"),
    };
    let dir = match parent(base_dir) {
        Some(p) => p,
        None => owned("."),
    };
    proof {
        reveal_strlit(".");
    }
    assert(".".view() =~= seq!['.']);
    let d = path_join(dir.as_str(), stem.as_str());
    path_join(d.as_str(), branch)
}

} // verus!

verus! {

/// The name a worktree goes by: `main` for the repository itself, its path below the
/// worktrees directory (so `feature/topic` keeps its slash), or else its last component.
pub open spec fn worktree_name_spec(path: Seq<char>, base_dir: Seq<char>, wdir: Seq<char>) -> Seq<
    char,
> {
    if path_equal(path, base_dir) {
        "main"@
    } else if starts_with(path, wdir + seq!['/']) && path.len() > wdir.len() + 1 {
        path.skip(wdir.len() + 1int)
    } else {
        or_else(path_file_name(path), seq![])
    }
}

/// The name of one worktree (all paths resolved).
pub fn worktree_name(path: &str, base_dir: &str, worktrees_dir: &str) -> (r: String)
    ensures
        r@ == worktree_name_spec(path@, base_dir@, worktrees_dir@),
        path@ == base_dir@ ==> r@ == "main"@,
{
    if same_path(path, base_dir) {
        return owned("main");
    }
    let pc = chars_of(path);
    let mut prefix = chars_of(worktrees_dir);
    prefix.push('/');
    assert(prefix@ =~= worktrees_dir@ + seq!['/']);
    if pc.len() > prefix.len() && crate::text::starts_with_chars(&pc, &prefix) {
        return string_of(&skip_chars(&pc, prefix.len()));
    }
    match file_name(path) {
        Some(n) => n,
        None => {
            assert(Seq::<char>::empty() =~= seq![]);
            String::new()
        },
    }
}

/// `get_worktree_names`: the names of the worktrees at `paths`, in order.
pub fn get_worktree_names(paths: &Vec<String>, base_dir: &str, worktrees_dir: &str) -> (r: Vec<
    String,
>)
    ensures
        r.len() == paths.len(),
        forall|i: int|
            0 <= i < paths.len() ==> #[trigger] r@[i]@ == worktree_name_spec(
                paths@[i]@,
                base_dir@,
                worktrees_dir@,
            ),
{
    let mut out: Vec<String> = Vec::new();
    for i in 0..paths.len()
        invariant
            out.len() == i,
            forall|j: int|
                0 <= j < i ==> #[trigger] out@[j]@ == worktree_name_spec(
                    paths@[j]@,
                    base_dir@,
                    worktrees_dir@,
                ),
    {
        out.push(worktree_name(paths[i].as_str(), base_dir, worktrees_dir));
    }
    out
}

/// A worktree with this name and path is the one looked for.
pub open spec fn is_match(n: Seq<char>, p: Seq<char>, name: Seq<char>, match_path: bool) -> bool {
    n == name || (match_path && p == name)
}

/// Index of the first worktree called `name` (or, with `match_path`, whose path is `name`).
pub open spec fn find_worktree_spec(
    names: Seq<Seq<char>>,
    paths: Seq<Seq<char>>,
    name: Seq<char>,
    match_path: bool,
) -> int
    decreases names.len(),
{
    if names.len() == 0 || paths.len() == 0 {
        -1
    } else if is_match(names[0], paths[0], name, match_path) {
        0
    } else {
        let r = find_worktree_spec(names.drop_first(), paths.drop_first(), name, match_path);
        if r < 0 {
            -1
        } else {
            r + 1
        }
    }
}

proof fn lemma_find_worktree(
    names: Seq<Seq<char>>,
    paths: Seq<Seq<char>>,
    name: Seq<char>,
    match_path: bool,
    i: int,
)
    requires
        names.len() == paths.len(),
        0 <= i <= names.len(),
        forall|j: int|
            0 <= j < i ==> !is_match(#[trigger] names[j], paths[j], name, match_path),
    ensures
        find_worktree_spec(names, paths, name, match_path) == (if find_worktree_spec(
            names.skip(i),
            paths.skip(i),
            name,
            match_path,
        ) < 0 {
            -1
        } else {
            i + find_worktree_spec(names.skip(i), paths.skip(i), name, match_path)
        }),
    decreases i,
{
    if i == 0 {
        assert(names.skip(0) =~= names);
        assert(paths.skip(0) =~= paths);
    } else {
        assert(names.drop_first().skip(i - 1) =~= names.skip(i));
        assert(paths.drop_first().skip(i - 1) =~= paths.skip(i));
        assert forall|j: int| 0 <= j < i - 1 implies !is_match(#[trigger] names.drop_first()[j], paths.drop_first()[j], name, match_path) by {
            assert(names.drop_first()[j] == names[j + 1]);
            assert(paths.drop_first()[j] == paths[j + 1]);
        }
        lemma_find_worktree(names.drop_first(), paths.drop_first(), name, match_path, i - 1);
    }
}

/// Finds a worktree by name (for `rm`, also by path).
pub fn find_worktree(names: &Vec<String>, paths: &Vec<String>, name: &str, match_path: bool) -> (r:
    Option<usize>)
    requires
        names.len() == paths.len(),
    ensures
        match r {
            Some(i) => i < names.len() && find_worktree_spec(
                crate::text::string_views(names@),
                crate::text::string_views(paths@),
                name@,
                match_path,
            ) == i,
            None => find_worktree_spec(
                crate::text::string_views(names@),
                crate::text::string_views(paths@),
                name@,
                match_path,
            ) < 0,
        },
{
    let ghost ns = crate::text::string_views(names@);
    let ghost ps = crate::text::string_views(paths@);
    let mut i: usize = 0;
    while i < names.len()
        invariant
            i <= names.len(),
            names.len() == paths.len(),
            ns == crate::text::string_views(names@),
            ps == crate::text::string_views(paths@),
            forall|j: int| 0 <= j < i ==> !is_match(#[trigger] ns[j], ps[j], name@, match_path),
        decreases names.len() - i,
    {
        if str_eq(names[i].as_str(), name) || (match_path && str_eq(paths[i].as_str(), name)) {
            proof {
                lemma_find_worktree(ns, ps, name@, match_path, i as int);
                assert(ns.skip(i as int)[0] == ns[i as int]);
                assert(ps.skip(i as int)[0] == ps[i as int]);
            }
            return Some(i);
        }
        assert(ns[i as int] == names@[i as int]@);
        assert(ps[i as int] == paths@[i as int]@);
        i = i + 1;
    }
    proof {
        let n = names.len() as int;
        lemma_find_worktree(ns, ps, name@, match_path, n);
        assert(ns.skip(n).len() == 0);
    }
    None
}

} // verus!
