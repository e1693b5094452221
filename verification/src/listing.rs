use vstd::prelude::*;
use crate::clock::Timestamp;
use crate::git::WorktreeInfo;
use crate::order::{is_stable_order, key_views, permuted, stable_sort_by_keys};
use crate::paths::{worktree_name, worktree_name_spec};
use crate::clock::{get_relative_time, relative_time};
use crate::messages::{msg_spec, pad_right};
use crate::paths::{file_name, path_equal, path_file_name, same_path};
use crate::text::{string_of, chars_of, decimal, decimal_string, join, join_strings, lowercase, rtrim, string_views, to_lowercase, utf8_len};

verus! {

/// What `wt list` orders its worktrees by.
#[derive(PartialEq, Eq, Structural, Clone, Copy)]
pub enum SortKey {
    Created,
    LastCommit,
    Name,
    Branch,
}

/// The order key of an optional time: no time first, then times in order.
pub open spec fn time_key(t: Option<Timestamp>) -> Seq<i64> {
    match t {
        None => seq![0],
        Some(t) => seq![1, t.secs, t.nanos as i64],
    }
}

/// The order key of a text: its characters as numbers. Comparing these in order is how
/// `String`s compare, since UTF-8 keeps the order of code points.
pub open spec fn text_key(s: Seq<char>) -> Seq<i64> {
    Seq::new(s.len(), |i: int| (s[i] as u32) as i64)
}

/// The last component of a worktree's path, or nothing when the path has none.
pub open spec fn dir_name(path: Seq<char>) -> Seq<char> {
    match path_file_name(path) {
        Some(n) => n,
        None => seq![],
    }
}

/// The key a worktree is ordered by: its creation or last-commit time, or the lower-case
/// last component of its path, or its lower-case branch.
pub open spec fn sort_key_spec(w: WorktreeInfo, key: SortKey) -> Seq<i64> {
    match key {
        SortKey::Created => time_key(w.created),
        SortKey::LastCommit => time_key(w.last_commit),
        SortKey::Name => text_key(lowercase(dir_name(w.path@))),
        SortKey::Branch => text_key(lowercase(w.branch@)),
    }
}

pub open spec fn sort_keys_spec(ws: Seq<WorktreeInfo>, key: SortKey) -> Seq<Seq<i64>> {
    Seq::new(ws.len(), |i: int| sort_key_spec(ws[i], key))
}

fn time_key_exec(t: Option<Timestamp>) -> (r: Vec<i64>)
    ensures
        r@ == time_key(t),
{
    let mut v: Vec<i64> = Vec::new();
    match t {
        None => {
            v.push(0);
        },
        Some(t) => {
            v.push(1);
            v.push(t.secs);
            v.push(t.nanos as i64);
        },
    }
    assert(v@ =~= time_key(t));
    v
}

fn text_key_exec(s: &str) -> (r: Vec<i64>)
    ensures
        r@ == text_key(s@),
{
    let c = chars_of(s);
    let mut v: Vec<i64> = Vec::new();
    for i in 0..c.len()
        invariant
            c@ == s@,
            v@ == text_key(s@).take(i as int),
    {
        v.push((c[i] as u32) as i64);
        assert(v@ =~= text_key(s@).take(i + 1));
    }
    assert(v@ =~= text_key(s@));
    v
}

fn sort_key_exec(w: &WorktreeInfo, key: SortKey) -> (r: Vec<i64>)
    ensures
        r@ == sort_key_spec(*w, key),
{
    match key {
        SortKey::Created => time_key_exec(w.created),
        SortKey::LastCommit => time_key_exec(w.last_commit),
        SortKey::Name => {
            let n = match file_name(w.path.as_str()) {
                Some(n) => n,
                None => String::new(),
            };
            text_key_exec(to_lowercase(n.as_str()).as_str())
        },
        SortKey::Branch => text_key_exec(to_lowercase(w.branch.as_str()).as_str()),
    }
}

/// The worktrees in the order `p`, turned around when `descending`.
pub open spec fn arranged(ws: Seq<WorktreeInfo>, p: Seq<int>, descending: bool) -> Seq<
    WorktreeInfo,
> {
    if descending {
        permuted(ws, p).reverse()
    } else {
        permuted(ws, p)
    }
}

fn reverse_in_place(v: &mut Vec<WorktreeInfo>)
    ensures
        final(v)@ == old(v)@.reverse(),
{
    let ghost v0 = v@;
    let mut out: Vec<WorktreeInfo> = Vec::new();
    while v.len() > 0
        invariant
            v0.len() == v.len() + out.len(),
            v@ == v0.take(v.len() as int),
            out@ == v0.reverse().take(out.len() as int),
        decreases v.len(),
    {
        let x = v.pop().unwrap();
        assert(out@.push(x) =~= v0.reverse().take(out.len() + 1));
        out.push(x);
        assert(v@ =~= v0.take(v.len() as int));
    }
    assert(out@ =~= v0.reverse());
    std::mem::swap(v, &mut out);
}

/// Sorts the worktrees: a stable sort by the chosen key, turned around when `descending`
/// (so equal keys then come in reverse order, as after `reverse`).
pub fn sort_worktrees(
    worktrees: &mut Vec<WorktreeInfo>,
    key: SortKey,
    descending: bool,
)
    ensures
        exists|p: Seq<int>|
            is_stable_order(sort_keys_spec(old(worktrees)@, key), p)
                && final(worktrees)@ == arranged(old(worktrees)@, p, descending),
{
    let ghost w0 = worktrees@;
    let mut keys: Vec<Vec<i64>> = Vec::new();
    for i in 0..worktrees.len()
        invariant
            keys.len() == i,
            forall|k: int|
                0 <= k < i ==> #[trigger] keys@[k]@ == sort_key_spec(worktrees@[k], key),
    {
        keys.push(sort_key_exec(&worktrees[i], key));
    }
    assert(key_views(keys@) =~= sort_keys_spec(w0, key));
    let order = stable_sort_by_keys(worktrees, &mut keys);
    if descending {
        reverse_in_place(worktrees);
    }
    assert(worktrees@ == arranged(w0, order@, descending));
}

/// Index of the first `x` in `a`, or -1.
pub open spec fn first_index(a: Seq<Seq<char>>, x: Seq<char>) -> int
    decreases a.len(),
{
    if a.len() == 0 {
        -1
    } else if a[0] == x {
        0
    } else {
        let r = first_index(a.drop_first(), x);
        if r < 0 {
            -1
        } else {
            r + 1
        }
    }
}

pub proof fn lemma_first_index(a: Seq<Seq<char>>, x: Seq<char>)
    ensures
        -1 <= first_index(a, x) < a.len(),
        first_index(a, x) >= 0 ==> a[first_index(a, x)] == x,
        first_index(a, x) < 0 <==> !a.contains(x),
        forall|k: int| 0 <= k < first_index(a, x) ==> a[k] != x,
    decreases a.len(),
{
    if a.len() > 0 && a[0] != x {
        lemma_first_index(a.drop_first(), x);
        if a.contains(x) {
            let k = choose|k: int| 0 <= k < a.len() && a[k] == x;
            assert(a.drop_first()[k - 1] == x);
        }
        if a.drop_first().contains(x) {
            let k = choose|k: int| 0 <= k < a.len() - 1 && a.drop_first()[k] == x;
            assert(a[k + 1] == x);
        }
        assert forall|k: int| 0 <= k < first_index(a, x) implies a[k] != x by {
            if k > 0 {
                assert(a[k] == a.drop_first()[k - 1]);
            }
        }
    } else if a.len() > 0 {
        assert(a.contains(x)) by {
            assert(a[0] == x);
        }
    }
}

/// The sort key a `--sort` value names.
pub open spec fn sort_key_named(v: Seq<char>) -> Option<SortKey> {
    if v == "created"@ {
        Some(SortKey::Created)
    } else if v == "last-commit"@ {
        Some(SortKey::LastCommit)
    } else if v == "name"@ {
        Some(SortKey::Name)
    } else if v == "branch"@ {
        Some(SortKey::Branch)
    } else {
        None
    }
}

/// How `wt list` shows the worktrees.
pub struct ListOptions {
    pub quiet: bool,
    pub show_pr: bool,
    pub sort: SortKey,
    pub descending: bool,
}

/// What `wt list` was asked for.
pub enum ListRequest {
    Help,
    Show(ListOptions),
}

/// Why the arguments of `wt list` were refused.
pub enum ListArgsError {
    MissingSortValue,
    InvalidSortKey(String),
}

fn contains_word(args: &Vec<String>, w: &str) -> (r: bool)
    ensures
        r == crate::text::string_views(args@).contains(w@),
{
    let ghost a = crate::text::string_views(args@);
    for i in 0..args.len()
        invariant
            a == crate::text::string_views(args@),
            forall|k: int| 0 <= k < i ==> a[k] != w@,
    {
        if crate::text::str_eq(args[i].as_str(), w) {
            assert(a[i as int] == w@);
            return true;
        }
    }
    false
}

fn first_word_index(args: &Vec<String>, w: &str) -> (r: Option<usize>)
    ensures
        match r {
            Some(i) => first_index(crate::text::string_views(args@), w@) == i,
            None => first_index(crate::text::string_views(args@), w@) < 0,
        },
{
    let ghost a = crate::text::string_views(args@);
    proof {
        lemma_first_index(a, w@);
    }
    for i in 0..args.len()
        invariant
            a == crate::text::string_views(args@),
            -1 <= first_index(a, w@) < a.len(),
            first_index(a, w@) >= 0 ==> a[first_index(a, w@)] == w@,
            forall|k: int| 0 <= k < first_index(a, w@) ==> a[k] != w@,
            forall|k: int| 0 <= k < i ==> a[k] != w@,
            first_index(a, w@) < 0 <==> !a.contains(w@),
    {
        if crate::text::str_eq(args[i].as_str(), w) {
            assert(a[i as int] == w@);
            assert(a.contains(w@));
            return Some(i);
        }
    }
    None
}

/// The arguments of `wt list`: `--help`/`-h` first; then `--sort` must be followed by one
/// of `created`, `last-commit`, `name`, `branch`; `--quiet`/`-q`, `--pr`, and `--asc` or
/// `--desc` (descending unless only `--asc` is given).
pub fn parse_list_args(args: &Vec<String>) -> (r: Result<ListRequest, ListArgsError>)
    ensures
        ({
            let a = crate::text::string_views(args@);
            let si = first_index(a, "--sort"@);
            if a.contains("--help"@) || a.contains("-h"@) {
                r matches Ok(ListRequest::Help)
            } else if si >= 0 && si + 1 >= a.len() {
                r matches Err(ListArgsError::MissingSortValue)
            } else if si >= 0 && sort_key_named(a[si + 1]) is None {
                r matches Err(ListArgsError::InvalidSortKey(k)) && k@ == a[si + 1]
            } else {
                r matches Ok(ListRequest::Show(o)) && o.quiet == (a.contains("--quiet"@)
                    || a.contains("-q"@)) && o.show_pr == a.contains("--pr"@) && o.sort == (if si
                    >= 0 {
                    sort_key_named(a[si + 1])->0
                } else {
                    SortKey::Created
                }) && o.descending == (!a.contains("--asc"@) || a.contains("--desc"@))
            }
        }),
{
    let ghost a = crate::text::string_views(args@);
    if contains_word(args, "--help") || contains_word(args, "-h") {
        return Ok(ListRequest::Help);
    }
    let quiet = contains_word(args, "--quiet") || contains_word(args, "-q");
    let show_pr = contains_word(args, "--pr");
    let mut sort = SortKey::Created;
    match first_word_index(args, "--sort") {
        Some(i) => {
            assert(i < args.len()) by {
                lemma_first_index(a, "--sort"@);
            }
            if i + 1 >= args.len() {
                return Err(ListArgsError::MissingSortValue);
            }
            let v = args[i + 1].as_str();
            assert(v@ == a[i + 1]);
            if crate::text::str_eq(v, "created") {
                sort = SortKey::Created;
            } else if crate::text::str_eq(v, "last-commit") {
                sort = SortKey::LastCommit;
            } else if crate::text::str_eq(v, "name") {
                sort = SortKey::Name;
            } else if crate::text::str_eq(v, "branch") {
                sort = SortKey::Branch;
            } else {
                return Err(ListArgsError::InvalidSortKey(args[i + 1].clone()));
            }
        },
        None => {},
    }
    let mut descending = true;
    if contains_word(args, "--asc") {
        descending = false;
    }
    if contains_word(args, "--desc") {
        descending = true;
    }
    Ok(ListRequest::Show(ListOptions { quiet, show_pr, sort, descending }))
}

pub open spec fn green() -> Seq<char> {
    "\x1b[32m"@
}

pub open spec fn red() -> Seq<char> {
    "\x1b[31m"@
}

pub open spec fn gray() -> Seq<char> {
    "\x1b[90m"@
}

pub open spec fn cyan() -> Seq<char> {
    "\x1b[36m"@
}

pub open spec fn bold() -> Seq<char> {
    "\x1b[1m"@
}

pub open spec fn reset() -> Seq<char> {
    "\x1b[0m"@
}

/// The pieces of a worktree's change summary, each as shown (in color) and as plain text:
/// inserted lines, deleted lines, untracked files.
pub open spec fn change_parts(w: WorktreeInfo) -> Seq<(Seq<char>, Seq<char>)> {
    let ins = decimal(w.insertions as nat);
    let del = decimal(w.deletions as nat);
    (if w.insertions > 0 {
        seq![(green() + "+"@ + ins + reset(), "+"@ + ins)]
    } else {
        seq![]
    }) + (if w.deletions > 0 {
        seq![(red() + "-"@ + del + reset(), "-"@ + del)]
    } else {
        seq![]
    }) + (if w.has_untracked {
        seq![(gray() + "??"@ + reset(), "??"@)]
    } else {
        seq![]
    })
}

/// The change summary of a worktree as shown, and its visible width: `missing` when its
/// directory is gone, `-` when nothing changed, else the pieces joined by spaces.
pub open spec fn changes_cell_spec(w: WorktreeInfo) -> (Seq<char>, nat) {
    let ps = change_parts(w);
    if w.missing {
        (red() + "missing"@ + reset(), 7)
    } else if ps.len() == 0 {
        ("-"@, 1)
    } else {
        (
            join(Seq::new(ps.len(), |i: int| ps[i].0), " "@),
            join(Seq::new(ps.len(), |i: int| ps[i].1), " "@).len(),
        )
    }
}

/// The change summary of a worktree: what is shown and how wide it is.
pub fn changes_cell(w: &WorktreeInfo) -> (r: (String, usize))
    ensures
        r.0@ == changes_cell_spec(*w).0,
        r.1 == changes_cell_spec(*w).1,
{
    let ghost ps = change_parts(*w);
    if w.missing {
        let mut t = String::from_str("\x1b[31m");
        t.append("missing");
        t.append("\x1b[0m");
        proof {
            reveal_strlit("missing");
        }
        return (t, 7);
    }
    let mut shown: Vec<String> = Vec::new();
    let mut plain: Vec<String> = Vec::new();
    if w.insertions > 0 {
        let n = decimal_string(w.insertions as u64);
        let mut a = String::from_str("\x1b[32m");
        a.append("+");
        a.append(n.as_str());
        a.append("\x1b[0m");
        shown.push(a);
        let mut b = String::from_str("+");
        b.append(n.as_str());
        plain.push(b);
    }
    if w.deletions > 0 {
        let n = decimal_string(w.deletions as u64);
        let mut a = String::from_str("\x1b[31m");
        a.append("-");
        a.append(n.as_str());
        a.append("\x1b[0m");
        shown.push(a);
        let mut b = String::from_str("-");
        b.append(n.as_str());
        plain.push(b);
    }
    if w.has_untracked {
        let mut a = String::from_str("\x1b[90m");
        a.append("??");
        a.append("\x1b[0m");
        shown.push(a);
        plain.push(String::from_str("??"));
    }
    assert(string_views(shown@) =~= Seq::new(ps.len(), |i: int| ps[i].0));
    assert(string_views(plain@) =~= Seq::new(ps.len(), |i: int| ps[i].1));
    if shown.len() == 0 {
        return (String::from_str("-"), 1);
    }
    let text = join_strings(&shown, " ");
    let p = join_strings(&plain, " ");
    let pc = chars_of(p.as_str());
    (text, pc.len())
}

/// One row of the `wt list` table, before widths are known.
pub struct ListRow {
    pub name: String,
    pub is_main: bool,
    pub branch: String,
    pub created: String,
    pub last_commit: String,
    pub changes: String,
    pub changes_len: usize,
    pub pr: String,
}

/// The row of a worktree, seen at `now`.
pub open spec fn row_matches(r: ListRow, w: WorktreeInfo, base_dir: Seq<char>, wdir: Seq<char>, now: Timestamp) -> bool {
    &&& r.name@ == worktree_name_spec(w.path@, base_dir, wdir)
    &&& r.is_main == path_equal(w.path@, base_dir)
    &&& r.branch@ == w.branch@
    &&& r.created@ == relative_time(w.created, now)
    &&& r.last_commit@ == relative_time(w.last_commit, now)
    &&& r.changes@ == changes_cell_spec(w).0
    &&& r.changes_len == changes_cell_spec(w).1
    &&& r.pr@ == w.pr_info@
}

/// The rows of the worktrees, in order, seen at `now`.
pub fn list_rows(worktrees: &Vec<WorktreeInfo>, base_dir: &str, worktrees_dir: &str, now: Timestamp) -> (r: Vec<ListRow>)
    ensures
        r.len() == worktrees.len(),
        forall|i: int| 0 <= i < r.len() ==> row_matches(#[trigger] r@[i], worktrees@[i], base_dir@, worktrees_dir@, now),
{
    let mut rows: Vec<ListRow> = Vec::new();
    for i in 0..worktrees.len()
        invariant
            rows.len() == i,
            forall|k: int| 0 <= k < i ==> row_matches(#[trigger] rows@[k], worktrees@[k], base_dir@, worktrees_dir@, now),
    {
        let w = &worktrees[i];
        let (changes, changes_len) = changes_cell(w);
        rows.push(ListRow {
            name: worktree_name(w.path.as_str(), base_dir, worktrees_dir),
            is_main: same_path(w.path.as_str(), base_dir),
            branch: w.branch.clone(),
            created: get_relative_time(w.created, now),
            last_commit: get_relative_time(w.last_commit, now),
            changes,
            changes_len,
            pr: w.pr_info.clone(),
        });
    }
    rows
}

/// The largest of `floor` and the numbers in `lens`.
pub open spec fn widest(lens: Seq<nat>, floor: nat) -> nat
    decreases lens.len(),
{
    if lens.len() == 0 {
        floor
    } else {
        let m = widest(lens.drop_last(), floor);
        if lens.last() > m {
            lens.last()
        } else {
            m
        }
    }
}

/// The column widths: for names, branches, creation times, last commits and changes,
/// the widest entry or heading, plus two.
pub open spec fn column_widths(rows: Seq<ListRow>, heads: Seq<Seq<char>>) -> Seq<nat> {
    seq![
        widest(Seq::new(rows.len(), |i: int| rows[i].name@.len()), heads[0].len()) + 2,
        widest(Seq::new(rows.len(), |i: int| rows[i].branch@.len()), heads[1].len()) + 2,
        widest(Seq::new(rows.len(), |i: int| rows[i].created@.len()), heads[2].len()) + 2,
        widest(Seq::new(rows.len(), |i: int| rows[i].last_commit@.len()), heads[3].len()) + 2,
        widest(Seq::new(rows.len(), |i: int| rows[i].changes_len as nat), heads[4].len()) + 2,
    ]
}

pub open spec fn spaces(n: int) -> Seq<char> {
    Seq::new(if n > 0 { n as nat } else { 0 }, |i: int| ' ')
}

/// The headings of the table, in the chosen language.
pub open spec fn list_headings(japanese: bool) -> Seq<Seq<char>> {
    seq![
        msg_spec("worktree_name"@, seq![], japanese),
        msg_spec("branch_name"@, seq![], japanese),
        msg_spec("created_at"@, seq![], japanese),
        msg_spec("last_commit"@, seq![], japanese),
        msg_spec("changes_label"@, seq![], japanese),
    ]
}

/// The heading line, each heading padded to its column.
pub open spec fn heading_text(heads: Seq<Seq<char>>, w: Seq<nat>) -> Seq<char> {
    pad_right(heads[0], w[0]) + " "@ + pad_right(heads[1], w[1]) + " "@ + pad_right(heads[2], w[2])
        + " "@ + pad_right(heads[3], w[3]) + " "@ + pad_right(heads[4], w[4])
}

/// One line of the table.
pub open spec fn row_text(r: ListRow, w: Seq<nat>, show_pr: bool) -> Seq<char> {
    let shown = if r.is_main {
        cyan() + "(main)"@ + reset()
    } else {
        r.name@
    };
    let visible: int = if r.is_main {
        6
    } else {
        r.name@.len() as int
    };
    shown + spaces(w[0] - visible) + " "@ + pad_right(r.branch@, w[1]) + " "@ + pad_right(
        r.created@,
        w[2],
    ) + " "@ + pad_right(r.last_commit@, w[3]) + " "@ + r.changes@ + spaces(w[4] - r.changes_len)
        + if show_pr {
        "   "@ + r.pr@
    } else {
        seq![]
    }
}

/// `wt list` as a table: the heading in bold (with a `PR` column when asked for), a rule
/// of `-` as long as the heading's bytes, then one line per row.
pub open spec fn table_spec(rows: Seq<ListRow>, show_pr: bool, japanese: bool) -> Seq<Seq<char>> {
    let heads = list_headings(japanese);
    let w = column_widths(rows, heads);
    let h = heading_text(heads, w);
    let top = if show_pr {
        seq![
            bold() + h + "   PR"@ + reset(),
            Seq::new(utf8_len(h) + 5, |i: int| '-'),
        ]
    } else {
        seq![bold() + rtrim(h) + reset(), Seq::new(utf8_len(rtrim(h)), |i: int| '-')]
    };
    top + Seq::new(rows.len(), |i: int| row_text(rows[i], w, show_pr))
}

fn widest_of(lens: &Vec<usize>, floor: usize) -> (r: usize)
    ensures
        r == widest(Seq::new(lens.len() as nat, |i: int| lens@[i] as nat), floor as nat),
{
    let ghost ls = Seq::new(lens.len() as nat, |i: int| lens@[i] as nat);
    let mut m = floor;
    for i in 0..lens.len()
        invariant
            ls == Seq::new(lens.len() as nat, |i: int| lens@[i] as nat),
            m == widest(ls.take(i as int), floor as nat),
    {
        assert(ls.take(i + 1).drop_last() =~= ls.take(i as int));
        if lens[i] > m {
            m = lens[i];
        }
    }
    assert(ls.take(lens.len() as int) =~= ls);
    m
}

/// Column `k`'s entries' widths.
fn column_lens(rows: &Vec<ListRow>, k: usize) -> (r: Vec<usize>)
    requires
        k < 5,
    ensures
        r.len() == rows.len(),
        forall|i: int|
            0 <= i < rows.len() ==> #[trigger] r@[i] == (if k == 0 {
                rows@[i].name@.len()
            } else if k == 1 {
                rows@[i].branch@.len()
            } else if k == 2 {
                rows@[i].created@.len()
            } else if k == 3 {
                rows@[i].last_commit@.len()
            } else {
                rows@[i].changes_len as nat
            }),
{
    let mut out: Vec<usize> = Vec::new();
    for i in 0..rows.len()
        invariant
            k < 5,
            out.len() == i,
            forall|j: int|
                0 <= j < i ==> #[trigger] out@[j] == (if k == 0 {
                    rows@[j].name@.len()
                } else if k == 1 {
                    rows@[j].branch@.len()
                } else if k == 2 {
                    rows@[j].created@.len()
                } else if k == 3 {
                    rows@[j].last_commit@.len()
                } else {
                    rows@[j].changes_len as nat
                }),
    {
        let r = &rows[i];
        let n = if k == 0 {
            r.name.as_str().unicode_len()
        } else if k == 1 {
            r.branch.as_str().unicode_len()
        } else if k == 2 {
            r.created.as_str().unicode_len()
        } else if k == 3 {
            r.last_commit.as_str().unicode_len()
        } else {
            r.changes_len
        };
        out.push(n);
    }
    out
}

fn spaces_exec(n: usize) -> (r: String)
    ensures
        r@ == spaces(n as int),
{
    let s = crate::text::repeat_char(' ', n);
    assert(s@ =~= spaces(n as int));
    s
}

/// `s` padded with spaces to `m + 2` characters, where `s` has at most `m`.
fn pad_two(s: &str, m: usize) -> (r: String)
    requires
        s@.len() <= m,
    ensures
        r@ == crate::messages::pad_right(s@, m as nat + 2),
{
    let mut out = crate::messages::pad_right_exec(s, m);
    out.append("  ");
    proof {
        reveal_strlit("  ");
    }
    assert(out@ =~= crate::messages::pad_right(s@, m as nat + 2));
    out
}

/// `n + 2` spaces, for `n` given.
fn spaces_two(n: usize) -> (r: String)
    ensures
        r@ == spaces(n + 2),
{
    let mut out = spaces_exec(n);
    out.append("  ");
    proof {
        reveal_strlit("  ");
    }
    assert(out@ =~= spaces(n + 2));
    out
}

/// The number of bytes a character takes in UTF-8.
fn char_bytes(c: char) -> (r: usize)
    ensures
        r == crate::text::char_utf8_len(c),
{
    let u = c as u32;
    if u < 0x80 {
        1
    } else if u < 0x800 {
        2
    } else if u < 0x10000 {
        3
    } else {
        4
    }
}

/// As many `-` as `s` has bytes in UTF-8.
fn dashes_under(s: &str) -> (r: String)
    ensures
        r@ == Seq::new(utf8_len(s@), |i: int| '-'),
{
    let c = chars_of(s);
    let mut v: Vec<char> = Vec::new();
    for i in 0..c.len()
        invariant
            c@ == s@,
            v@ == Seq::new(utf8_len(s@.take(i as int)), |k: int| '-'),
    {
        assert(s@.take(i + 1).drop_last() =~= s@.take(i as int));
        assert(s@.take(i + 1).last() == c@[i as int]);
        let n = char_bytes(c[i]);
        for j in 0..n
            invariant
                v@ == Seq::new((utf8_len(s@.take(i as int)) + j) as nat, |k: int| '-'),
        {
            v.push('-');
            assert(v@ =~= Seq::new((utf8_len(s@.take(i as int)) + j + 1) as nat, |k: int| '-'));
        }
        assert(v@ =~= Seq::new(utf8_len(s@.take(i + 1)), |k: int| '-'));
    }
    assert(s@.take(c.len() as int) =~= s@);
    string_of(&v)
}

fn row_line(r: &ListRow, m: &Vec<usize>, show_pr: bool) -> (out: String)
    requires
        m.len() == 5,
        r.name@.len() <= m@[0],
        r.branch@.len() <= m@[1],
        r.created@.len() <= m@[2],
        r.last_commit@.len() <= m@[3],
        r.changes_len <= m@[4],
    ensures
        out@ == row_text(*r, Seq::new(5, |k: int| (m@[k] + 2) as nat), show_pr),
{
    let ghost wn = Seq::new(5, |k: int| (m@[k] + 2) as nat);
    let mut out = String::new();
    let visible: usize = if r.is_main {
        out.append("\x1b[36m");
        out.append("(main)");
        out.append("\x1b[0m");
        proof {
            reveal_strlit("(main)");
        }
        6
    } else {
        out.append(r.name.as_str());
        r.name.as_str().unicode_len()
    };
    let pad = if visible <= m[0] {
        spaces_two(m[0] - visible)
    } else if visible <= m[0] + 1 {
        spaces_exec(1)
    } else {
        String::new()
    };
    assert(pad@ =~= spaces(wn[0] - visible));
    out.append(pad.as_str());
    out.append(" ");
    out.append(pad_two(r.branch.as_str(), m[1]).as_str());
    out.append(" ");
    out.append(pad_two(r.created.as_str(), m[2]).as_str());
    out.append(" ");
    out.append(pad_two(r.last_commit.as_str(), m[3]).as_str());
    out.append(" ");
    out.append(r.changes.as_str());
    let tail = spaces_two(m[4] - r.changes_len);
    assert(tail@ =~= spaces(wn[4] - r.changes_len));
    out.append(tail.as_str());
    if show_pr {
        out.append("   ");
        out.append(r.pr.as_str());
    }
    out
}

/// The widest entry or heading of column `k` (its width less two).
fn column_width(rows: &Vec<ListRow>, heads: &Vec<String>, k: usize) -> (r: usize)
    requires
        k < 5,
        heads.len() == 5,
    ensures
        r + 2 == column_widths(rows@, string_views(heads@))[k as int],
{
    let ghost hv = string_views(heads@);
    let lens = column_lens(rows, k);
    let ghost ls = Seq::new(lens.len() as nat, |i: int| lens@[i] as nat);
    proof {
        if k == 0 {
            assert(ls =~= Seq::new(rows@.len(), |i: int| rows@[i].name@.len()));
        } else if k == 1 {
            assert(ls =~= Seq::new(rows@.len(), |i: int| rows@[i].branch@.len()));
        } else if k == 2 {
            assert(ls =~= Seq::new(rows@.len(), |i: int| rows@[i].created@.len()));
        } else if k == 3 {
            assert(ls =~= Seq::new(rows@.len(), |i: int| rows@[i].last_commit@.len()));
        } else {
            assert(ls =~= Seq::new(rows@.len(), |i: int| rows@[i].changes_len as nat));
        }
        assert(hv[k as int] == heads@[k as int]@);
    }
    widest_of(&lens, heads[k].as_str().unicode_len())
}

proof fn lemma_widest_floor(lens: Seq<nat>, floor: nat)
    ensures
        widest(lens, floor) >= floor,
    decreases lens.len(),
{
    if lens.len() > 0 {
        lemma_widest_floor(lens.drop_last(), floor);
    }
}

proof fn lemma_widest_each(lens: Seq<nat>, floor: nat, i: int)
    requires
        0 <= i < lens.len(),
    ensures
        widest(lens, floor) >= lens[i],
    decreases lens.len(),
{
    if i < lens.len() - 1 {
        lemma_widest_each(lens.drop_last(), floor, i);
    }
}

/// `wt list`'s table.
pub fn list_table(rows: &Vec<ListRow>, show_pr: bool, japanese: bool) -> (r: Vec<String>)
    ensures
        string_views(r@) == table_spec(rows@, show_pr, japanese),
{
    let heads: Vec<String> = vec![
        crate::messages::m0("worktree_name", japanese),
        crate::messages::m0("branch_name", japanese),
        crate::messages::m0("created_at", japanese),
        crate::messages::m0("last_commit", japanese),
        crate::messages::m0("changes_label", japanese),
    ];
    let ghost hv = list_headings(japanese);
    assert(string_views(heads@) =~= hv);
    let ghost cw = column_widths(rows@, hv);
    let m0 = column_width(rows, &heads, 0);
    let m1 = column_width(rows, &heads, 1);
    let m2 = column_width(rows, &heads, 2);
    let m3 = column_width(rows, &heads, 3);
    let m4 = column_width(rows, &heads, 4);
    let m: Vec<usize> = vec![m0, m1, m2, m3, m4];
    let ghost wn = Seq::new(5, |k: int| (m@[k] + 2) as nat);
    assert(wn =~= cw);
    proof {
        assert forall|k: int| 0 <= k < 5 implies hv[k].len() <= #[trigger] m@[k] by {
            assert(hv[k] == heads@[k]@);
            if k == 0 {
                lemma_widest_floor(Seq::new(rows@.len(), |i: int| rows@[i].name@.len()), hv[0].len());
            } else if k == 1 {
                lemma_widest_floor(Seq::new(rows@.len(), |i: int| rows@[i].branch@.len()), hv[1].len());
            } else if k == 2 {
                lemma_widest_floor(Seq::new(rows@.len(), |i: int| rows@[i].created@.len()), hv[2].len());
            } else if k == 3 {
                lemma_widest_floor(Seq::new(rows@.len(), |i: int| rows@[i].last_commit@.len()), hv[3].len());
            } else {
                lemma_widest_floor(Seq::new(rows@.len(), |i: int| rows@[i].changes_len as nat), hv[4].len());
            }
        }
        assert(hv[0] == heads@[0]@ && hv[1] == heads@[1]@ && hv[2] == heads@[2]@ && hv[3] == heads@[3]@ && hv[4] == heads@[4]@);
    }
    let mut h = pad_two(heads[0].as_str(), m0);
    h.append(" ");
    h.append(pad_two(heads[1].as_str(), m1).as_str());
    h.append(" ");
    h.append(pad_two(heads[2].as_str(), m2).as_str());
    h.append(" ");
    h.append(pad_two(heads[3].as_str(), m3).as_str());
    h.append(" ");
    h.append(pad_two(heads[4].as_str(), m4).as_str());
    assert(h@ =~= heading_text(hv, wn));
    let mut lines: Vec<String> = Vec::new();
    if show_pr {
        let mut top = String::from_str("\x1b[1m");
        top.append(h.as_str());
        top.append("   PR");
        top.append("\x1b[0m");
        lines.push(top);
        let mut rule = dashes_under(h.as_str());
        rule.append("-----");
        proof {
            reveal_strlit("-----");
        }
        assert(rule@ =~= Seq::new(utf8_len(h@) + 5, |i: int| '-'));
        lines.push(rule);
    } else {
        let t = string_of(&crate::text::trim_end_chars(&chars_of(h.as_str())));
        let mut top = String::from_str("\x1b[1m");
        top.append(t.as_str());
        top.append("\x1b[0m");
        lines.push(top);
        lines.push(dashes_under(t.as_str()));
    }
    let ghost top = string_views(lines@);
    for i in 0..rows.len()
        invariant
            m.len() == 5,
            wn == Seq::new(5, |k: int| (m@[k] + 2) as nat),
            wn == column_widths(rows@, hv),
            hv == list_headings(japanese),
            lines.len() == i + 2,
            string_views(lines@) == top + Seq::new(i as nat, |j: int| row_text(rows@[j], wn, show_pr)),
    {
        proof {
            lemma_widest_each(Seq::new(rows@.len(), |j: int| rows@[j].name@.len()), hv[0].len(), i as int);
            lemma_widest_each(Seq::new(rows@.len(), |j: int| rows@[j].branch@.len()), hv[1].len(), i as int);
            lemma_widest_each(Seq::new(rows@.len(), |j: int| rows@[j].created@.len()), hv[2].len(), i as int);
            lemma_widest_each(Seq::new(rows@.len(), |j: int| rows@[j].last_commit@.len()), hv[3].len(), i as int);
            lemma_widest_each(Seq::new(rows@.len(), |j: int| rows@[j].changes_len as nat), hv[4].len(), i as int);
            assert(m@[0] + 2 == wn[0] && m@[1] + 2 == wn[1] && m@[2] + 2 == wn[2] && m@[3] + 2 == wn[3] && m@[4] + 2 == wn[4]);
        }
        let ghost l0 = string_views(lines@);
        let line = row_line(&rows[i], &m, show_pr);
        assert(Seq::new(5, |k: int| (m@[k] + 2) as nat) == wn);
        lines.push(line);
        assert(string_views(lines@) =~= l0.push(line@));
        assert(string_views(lines@) =~= top + Seq::new((i + 1) as nat, |j: int| row_text(rows@[j], wn, show_pr)));
    }
    assert(string_views(lines@) =~= table_spec(rows@, show_pr, japanese));
    lines
}


/// A joined text ends with its last part.
proof fn lemma_join_ends_with(parts: Seq<Seq<char>>, sep: Seq<char>)
    requires
        parts.len() > 0,
    ensures
        join(parts, sep).len() >= parts.last().len(),
        join(parts, sep).subrange(
            join(parts, sep).len() - parts.last().len(),
            join(parts, sep).len() as int,
        ) == parts.last(),
{
    let j = join(parts, sep);
    if parts.len() == 1 {
        assert(j.subrange(0, j.len() as int) =~= j);
    } else {
        let a = join(parts.drop_last(), sep) + sep;
        assert(j == a + parts.last());
        assert(j.subrange(a.len() as int, j.len() as int) =~= parts.last());
    }
}

/// A joined text begins with its first part.
proof fn lemma_join_starts_with(parts: Seq<Seq<char>>, sep: Seq<char>)
    requires
        parts.len() > 0,
    ensures
        join(parts, sep).len() >= parts[0].len(),
        join(parts, sep).take(parts[0].len() as int) == parts[0],
    decreases parts.len(),
{
    let j = join(parts, sep);
    if parts.len() == 1 {
        assert(j.take(j.len() as int) =~= j);
    } else {
        lemma_join_starts_with(parts.drop_last(), sep);
        let p = join(parts.drop_last(), sep);
        assert(parts.drop_last()[0] == parts[0]);
        assert(j == p + sep + parts.last());
        assert(j.take(parts[0].len() as int) =~= p.take(parts[0].len() as int));
    }
}

/// A joined text holds each of its parts.
proof fn lemma_join_holds(parts: Seq<Seq<char>>, sep: Seq<char>, i: int)
    requires
        0 <= i < parts.len(),
    ensures
        exists|k: int|
            0 <= k && k + parts[i].len() <= join(parts, sep).len() && #[trigger] join(
                parts,
                sep,
            ).subrange(k, k + parts[i].len()) == parts[i],
    decreases parts.len(),
{
    let j = join(parts, sep);
    if i == parts.len() - 1 {
        lemma_join_ends_with(parts, sep);
        let k = j.len() - parts.last().len();
        assert(j.subrange(k, k + parts[i].len()) == parts[i]);
    } else {
        lemma_join_holds(parts.drop_last(), sep, i);
        let p = join(parts.drop_last(), sep);
        assert(parts.drop_last()[i] == parts[i]);
        let k = choose|k: int|
            0 <= k && k + parts[i].len() <= p.len() && #[trigger] p.subrange(k, k + parts[i].len())
                == parts[i];
        assert(j == p + sep + parts.last());
        assert(j.subrange(k, k + parts[i].len()) =~= p.subrange(k, k + parts[i].len()));
    }
}

proof fn lemma_changes_cell_deletions(w: WorktreeInfo)
    requires
        !w.missing,
        w.deletions > 0,
    ensures
        ({
            let c = changes_cell_spec(w).0;
            let t = "\x1b[31m-"@ + decimal(w.deletions as nat);
            exists|k: int| 0 <= k && k + t.len() <= c.len() && #[trigger] c.subrange(k, k + t.len()) == t
        }),
{
    reveal_strlit("\x1b[31m-");
    reveal_strlit("\x1b[31m");
    reveal_strlit("-");
    let ps = change_parts(w);
    let shown = Seq::new(ps.len(), |i: int| ps[i].0);
    let del = decimal(w.deletions as nat);
    let i: int = if w.insertions > 0 { 1 } else { 0 };
    assert(ps[i] == (red() + "-"@ + del + reset(), "-"@ + del));
    assert(shown[i] == red() + "-"@ + del + reset());
    lemma_join_holds(shown, " "@, i);
    let c = join(shown, " "@);
    assert(changes_cell_spec(w).0 == c);
    let k = choose|k: int|
        0 <= k && k + shown[i].len() <= c.len() && #[trigger] c.subrange(k, k + shown[i].len())
            == shown[i];
    let t = "\x1b[31m-"@ + del;
    assert(red() + "-"@ + del =~= t);
    assert(c.subrange(k, k + t.len()) =~= shown[i].take(t.len() as int));
    assert(0 <= k && k + t.len() <= c.len() && c.subrange(k, k + t.len()) == t);
}

/// Law: the Changes cell of a worktree whose directory is there shows an untracked file as
/// `??` at its end, inserted lines as `+<n>` at its start, and is `-` exactly when
/// nothing changed; a missing worktree shows `missing`.
pub proof fn lemma_changes_cell_shows_changes(w: WorktreeInfo)
    ensures
        w.missing ==> changes_cell_spec(w) == ("\x1b[31mmissing\x1b[0m"@, 7nat),
        !w.missing && w.has_untracked ==> ({
            let c = changes_cell_spec(w).0;
            let t = "\x1b[90m??\x1b[0m"@;
            &&& c.len() >= t.len()
            &&& c.subrange(c.len() - t.len(), c.len() as int) == t
            &&& changes_cell_spec(w).1 >= 2
        }),
        !w.missing && w.insertions > 0 ==> ({
            let c = changes_cell_spec(w).0;
            let t = "\x1b[32m+"@ + decimal(w.insertions as nat);
            c.len() >= t.len() && c.take(t.len() as int) == t
        }),
        !w.missing ==> (changes_cell_spec(w).0 == "-"@ <==> (w.insertions == 0 && w.deletions
            == 0 && !w.has_untracked)),
        !w.missing && w.deletions > 0 ==> ({
            let c = changes_cell_spec(w).0;
            let t = "\x1b[31m-"@ + decimal(w.deletions as nat);
            exists|k: int| 0 <= k && k + t.len() <= c.len() && #[trigger] c.subrange(k, k + t.len()) == t
        }),
{
    reveal_strlit("-");
    reveal_strlit("\x1b[31m");
    reveal_strlit("missing");
    reveal_strlit("\x1b[0m");
    reveal_strlit("\x1b[31mmissing\x1b[0m");
    reveal_strlit("\x1b[90m??\x1b[0m");
    reveal_strlit("\x1b[90m");
    reveal_strlit("??");
    reveal_strlit("\x1b[32m+");
    reveal_strlit("\x1b[32m");
    reveal_strlit("+");
    let ps = change_parts(w);
    let shown = Seq::new(ps.len(), |i: int| ps[i].0);
    let plain = Seq::new(ps.len(), |i: int| ps[i].1);
    if w.missing {
        assert(red() + "missing"@ + reset() =~= "\x1b[31mmissing\x1b[0m"@);
    } else if ps.len() > 0 {
        lemma_join_ends_with(shown, " "@);
        lemma_join_ends_with(plain, " "@);
        lemma_join_starts_with(shown, " "@);
        assert(shown.last() == ps.last().0);
        assert(shown.last().len() >= 4);
        if w.has_untracked {
            assert(ps.last() == (gray() + "??"@ + reset(), "??"@));
            assert(gray() + "??"@ + reset() =~= "\x1b[90m??\x1b[0m"@);
        }
        if w.deletions > 0 {
            lemma_changes_cell_deletions(w);
        }
        if w.insertions > 0 {
            let ins = decimal(w.insertions as nat);
            assert(ps[0] == (green() + "+"@ + ins + reset(), "+"@ + ins));
            assert(shown[0] == green() + "+"@ + ins + reset());
            let t = "\x1b[32m+"@ + ins;
            assert(green() + "+"@ + ins =~= t);
            assert(shown[0].take(t.len() as int) =~= t);
            let c = join(shown, " "@);
            assert(c.take(t.len() as int) =~= c.take(shown[0].len() as int).take(t.len() as int));
        }
    } else {
        assert(!w.has_untracked && w.insertions == 0 && w.deletions == 0) by {
            if w.has_untracked || w.insertions > 0 || w.deletions > 0 {
                assert(ps.len() > 0);
            }
        }
    }
}

} // verus!
