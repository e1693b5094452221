use vstd::prelude::*;
use crate::messages::{m1, msg_spec};
use crate::order::{is_stable_order, key_views, permuted, stable_sort_by_keys};
use crate::order::{first_true, lemma_first_true_at, lemma_first_true_none};
use crate::paths::{path_equal, same_path, path_has_prefix, path_starts_with, worktree_name, worktree_name_spec};
use crate::text::{chars_of, decimal, decimal_string, join, join_strings, parse_usize, parse_usize_spec, str_eq, string_of, string_views, trim, trim_chars};

verus! {

pub open spec fn min3(x: nat, y: nat, z: nat) -> nat {
    if x <= y && x <= z {
        x
    } else if y <= z {
        y
    } else {
        z
    }
}

/// The Levenshtein distance: the fewest insertions, deletions and substitutions of single
/// characters that turn `a` into `b`.
pub open spec fn edit_distance(a: Seq<char>, b: Seq<char>) -> nat
    decreases a.len() + b.len(),
{
    if a.len() == 0 {
        b.len()
    } else if b.len() == 0 {
        a.len()
    } else if a.last() == b.last() {
        edit_distance(a.drop_last(), b.drop_last())
    } else {
        1 + min3(
            edit_distance(a.drop_last(), b.drop_last()),
            edit_distance(a, b.drop_last()),
            edit_distance(a.drop_last(), b),
        )
    }
}

pub proof fn lemma_edit_distance_bound(a: Seq<char>, b: Seq<char>)
    ensures
        edit_distance(a, b) <= if a.len() >= b.len() {
            a.len()
        } else {
            b.len()
        },
    decreases a.len() + b.len(),
{
    if a.len() > 0 && b.len() > 0 {
        lemma_edit_distance_bound(a.drop_last(), b.drop_last());
    }
}

/// The distance from a text to itself is 0, and only to itself.
pub proof fn lemma_edit_distance_zero(a: Seq<char>, b: Seq<char>)
    ensures
        edit_distance(a, b) == 0 <==> a == b,
    decreases a.len() + b.len(),
{
    if a.len() > 0 && b.len() > 0 {
        lemma_edit_distance_zero(a.drop_last(), b.drop_last());
        if a.last() == b.last() {
            if a.drop_last() == b.drop_last() {
                assert(a =~= a.drop_last().push(a.last()));
                assert(b =~= b.drop_last().push(b.last()));
            }
        }
        if a == b {
            assert(a.drop_last() == b.drop_last());
        }
    } else if a.len() == 0 && b.len() == 0 {
        assert(a =~= b);
    }
}

/// The distance is at least the difference of the lengths.
pub proof fn lemma_edit_distance_length_gap(a: Seq<char>, b: Seq<char>)
    ensures
        a.len() - b.len() <= edit_distance(a, b),
        b.len() - a.len() <= edit_distance(a, b),
    decreases a.len() + b.len(),
{
    if a.len() > 0 && b.len() > 0 {
        lemma_edit_distance_length_gap(a.drop_last(), b.drop_last());
        lemma_edit_distance_length_gap(a, b.drop_last());
        lemma_edit_distance_length_gap(a.drop_last(), b);
    }
}

/// The distance does not depend on which text comes first.
pub proof fn lemma_edit_distance_symmetric(a: Seq<char>, b: Seq<char>)
    ensures
        edit_distance(a, b) == edit_distance(b, a),
    decreases a.len() + b.len(),
{
    if a.len() > 0 && b.len() > 0 {
        lemma_edit_distance_symmetric(a.drop_last(), b.drop_last());
        if a.last() != b.last() {
            lemma_edit_distance_symmetric(a, b.drop_last());
            lemma_edit_distance_symmetric(a.drop_last(), b);
        }
    }
}

/// Dropping the last character of the first text changes the distance by at most one.
proof fn lemma_edit_distance_drop(a: Seq<char>, b: Seq<char>)
    requires
        a.len() > 0,
    ensures
        edit_distance(a, b) <= edit_distance(a.drop_last(), b) + 1,
        edit_distance(a.drop_last(), b) <= edit_distance(a, b) + 1,
    decreases a.len() + b.len(),
{
    let ap = a.drop_last();
    if b.len() > 0 {
        let bp = b.drop_last();
        lemma_edit_distance_drop(b, ap);
        lemma_edit_distance_symmetric(b, ap);
        lemma_edit_distance_symmetric(bp, ap);
        if a.last() != b.last() {
            lemma_edit_distance_drop(a, bp);
        }
    }
}

/// For two texts that are not empty, the distance is the least of the three ways to end:
/// matching (or substituting) the last characters, dropping the last of the first text,
/// or dropping the last of the second.
proof fn lemma_edit_distance_step(a: Seq<char>, b: Seq<char>)
    requires
        a.len() > 0,
        b.len() > 0,
    ensures
        ({
            let m = edit_distance(a.drop_last(), b.drop_last()) + if a.last() == b.last() {
                0int
            } else {
                1int
            };
            let da = edit_distance(a.drop_last(), b) + 1;
            let db = edit_distance(a, b.drop_last()) + 1;
            let d = edit_distance(a, b);
            &&& d <= m && d <= da && d <= db
            &&& d == m || d == da || d == db
        }),
{
    lemma_edit_distance_drop(a, b.drop_last());
    lemma_edit_distance_drop(b, a.drop_last());
    lemma_edit_distance_symmetric(b, a.drop_last());
    lemma_edit_distance_symmetric(b.drop_last(), a.drop_last());
}

/// The triangle inequality: going from `a` to `c` by way of `b` is never shorter.
pub proof fn lemma_edit_distance_triangle(a: Seq<char>, b: Seq<char>, c: Seq<char>)
    ensures
        edit_distance(a, c) <= edit_distance(a, b) + edit_distance(b, c),
    decreases a.len() + b.len() + c.len(),
{
    lemma_edit_distance_bound(a, c);
    lemma_edit_distance_length_gap(a, b);
    lemma_edit_distance_length_gap(b, c);
    if a.len() > 0 && b.len() > 0 && c.len() > 0 {
        let ap = a.drop_last();
        let bp = b.drop_last();
        let cp = c.drop_last();
        lemma_edit_distance_step(a, b);
        lemma_edit_distance_step(b, c);
        lemma_edit_distance_step(a, c);
        let dab = edit_distance(a, b);
        let dbc = edit_distance(b, c);
        if dab == edit_distance(ap, b) + 1 {
            lemma_edit_distance_triangle(ap, b, c);
        } else if dbc == edit_distance(b, cp) + 1 {
            lemma_edit_distance_triangle(a, b, cp);
        } else if dab == edit_distance(a, bp) + 1 {
            if dbc == edit_distance(bp, c) + 1 {
                lemma_edit_distance_triangle(a, bp, c);
            } else {
                lemma_edit_distance_triangle(a, bp, cp);
            }
        } else {
            if dbc == edit_distance(bp, c) + 1 {
                lemma_edit_distance_triangle(ap, bp, c);
            } else {
                lemma_edit_distance_triangle(ap, bp, cp);
            }
        }
    }
}

/// `levenshtein`: the edit distance between `a` and `b`, computed row by row (the first
/// column, which is just the row number, kept apart).
pub fn levenshtein(a: &str, b: &str) -> (r: usize)
    ensures
        r == edit_distance(a@, b@),
{
    let ac = chars_of(a);
    let bc = chars_of(b);
    let n = bc.len();
    let mut costs: Vec<usize> = Vec::new();
    for j in 0..n
        invariant
            n == bc.len(),
            costs.len() == j,
            forall|k: int| 0 <= k < j ==> #[trigger] costs@[k] == edit_distance(ac@.take(0), bc@.take(k + 1)),
    {
        assert(edit_distance(ac@.take(0), bc@.take(j + 1)) == j + 1);
        costs.push(j + 1);
    }
    for i in 0..ac.len()
        invariant
            n == bc.len(),
            costs.len() == n,
            forall|k: int| 0 <= k < n ==> #[trigger] costs@[k] == edit_distance(ac@.take(i as int), bc@.take(k + 1)),
    {
        let ca = ac[i];
        let mut last: usize = i;
        assert(edit_distance(ac@.take(i as int), bc@.take(0)) == i);
        assert(edit_distance(ac@.take(i + 1), bc@.take(0)) == i + 1);
        for j in 0..n
            invariant
                n == bc.len(),
                i < ac.len(),
                ca == ac@[i as int],
                costs.len() == n,
                last == edit_distance(ac@.take(i as int), bc@.take(j as int)),
                forall|k: int| 0 <= k < j ==> #[trigger] costs@[k] == edit_distance(ac@.take(i + 1), bc@.take(k + 1)),
                forall|k: int| j <= k < n ==> #[trigger] costs@[k] == edit_distance(ac@.take(i as int), bc@.take(k + 1)),
        {
            let ghost x = ac@.take(i + 1);
            let ghost y = bc@.take(j + 1);
            assert(x.drop_last() =~= ac@.take(i as int));
            assert(y.drop_last() =~= bc@.take(j as int));
            assert(x.last() == ca);
            assert(y.last() == bc@[j as int]);
            proof {
                lemma_edit_distance_bound(x.drop_last(), y.drop_last());
                lemma_edit_distance_bound(x, y);
            }
            let old = costs[j];
            let left: usize = if j == 0 {
                i + 1
            } else {
                costs[j - 1]
            };
            assert(left == edit_distance(x, y.drop_last()));
            let v = if ca == bc[j] {
                last
            } else {
                let m1 = if last < left {
                    last
                } else {
                    left
                };
                let m2 = if m1 < old {
                    m1
                } else {
                    old
                };
                assert(m2 + 1 == edit_distance(x, y));
                m2 + 1
            };
            costs.set(j, v);
            last = old;
        }
    }
    assert(ac@.take(ac.len() as int) =~= a@);
    assert(bc@.take(n as int) =~= b@);
    if n == 0 {
        ac.len()
    } else {
        costs[n - 1]
    }
}

/// A name is close to what was typed: its distance is at most three fifths of the longer
/// length (counting at least 1).
pub open spec fn is_close(typed: Seq<char>, name: Seq<char>) -> bool {
    let m: int = if typed.len() >= name.len() {
        typed.len() as int
    } else {
        name.len() as int
    };
    let m = if m < 1 {
        1
    } else {
        m
    };
    5 * edit_distance(typed, name) <= 3 * m
}

/// The names close to what was typed, in their order.
pub open spec fn close_names(typed: Seq<char>, names: Seq<Seq<char>>) -> Seq<Seq<char>>
    decreases names.len(),
{
    if names.len() == 0 {
        seq![]
    } else if is_close(typed, names.last()) {
        close_names(typed, names.drop_last()).push(names.last())
    } else {
        close_names(typed, names.drop_last())
    }
}

/// An order key for a distance.
pub open spec fn distance_key(d: nat) -> Seq<i64> {
    seq![(d / 0x1_0000_0000) as i64, (d % 0x1_0000_0000) as i64]
}

/// The order keys of the close names: their distances.
pub open spec fn close_keys(typed: Seq<char>, names: Seq<Seq<char>>) -> Seq<Seq<i64>> {
    let c = close_names(typed, names);
    Seq::new(c.len(), |i: int| distance_key(edit_distance(typed, c[i])))
}

/// `suggest_worktree_name`'s line: nothing when there are no worktrees; the names close to
/// what was typed, nearest first (equally near ones in order), at most three; or, when
/// none is close, all the names.
pub open spec fn suggestion_matches(r: Option<Seq<char>>, typed: Seq<char>, names: Seq<Seq<char>>, japanese: bool) -> bool {
    let c = close_names(typed, names);
    if names.len() == 0 {
        r is None
    } else if c.len() == 0 {
        r == Some(msg_spec("available_worktrees"@, seq![join(names, ", "@)], japanese))
    } else {
        exists|p: Seq<int>|
            is_stable_order(close_keys(typed, names), p) && r == Some(
                msg_spec(
                    "did_you_mean"@,
                    seq![join(permuted(c, p).take(if c.len() < 3 { c.len() as int } else { 3 }), ", "@)],
                    japanese,
                ),
            )
    }
}

fn close_exec(typed: &str, name: &str) -> (r: (bool, usize))
    ensures
        r.0 == is_close(typed@, name@),
        r.1 == edit_distance(typed@, name@),
{
    let d = levenshtein(typed, name);
    let t = typed.unicode_len();
    let n = name.unicode_len();
    let m: usize = if t >= n {
        t
    } else {
        n
    };
    let m: usize = if m < 1 {
        1
    } else {
        m
    };
    ((5 * (d as u128)) <= 3 * (m as u128), d)
}

/// `suggest_worktree_name`: the line that follows a name that matched no worktree.
pub fn suggest_worktree_name(typed: &str, names: &Vec<String>, japanese: bool) -> (r: Option<String>)
    ensures
        suggestion_matches(
            match r {
                Some(s) => Some(s@),
                None => None,
            },
            typed@,
            string_views(names@),
            japanese,
        ),
{
    let ghost nv = string_views(names@);
    if names.len() == 0 {
        return None;
    }
    let mut cands: Vec<String> = Vec::new();
    let mut keys: Vec<Vec<i64>> = Vec::new();
    for i in 0..names.len()
        invariant
            nv == string_views(names@),
            string_views(cands@) == close_names(typed@, nv.take(i as int)),
            key_views(keys@) == close_keys(typed@, nv.take(i as int)),
    {
        assert(nv.take(i + 1).drop_last() =~= nv.take(i as int));
        assert(nv.take(i + 1).last() == names@[i as int]@);
        let (ok, d) = close_exec(typed, names[i].as_str());
        if ok {
            let ghost c0 = string_views(cands@);
            let ghost k0 = key_views(keys@);
            cands.push(names[i].clone());
            let mut k: Vec<i64> = Vec::new();
            let hi: u64 = (d as u64) / 0x1_0000_0000;
            let lo: u64 = (d as u64) % 0x1_0000_0000;
            k.push(hi as i64);
            k.push(lo as i64);
            assert(k@ =~= distance_key(d as nat));
            keys.push(k);
            assert(string_views(cands@) =~= c0.push(names@[i as int]@));
            assert(key_views(keys@) =~= k0.push(distance_key(d as nat)));
            assert(close_keys(typed@, nv.take(i + 1)) =~= k0.push(distance_key(d as nat)));
        } else {
            assert(close_keys(typed@, nv.take(i + 1)) =~= close_keys(typed@, nv.take(i as int)));
        }
    }
    assert(nv.take(names.len() as int) =~= nv);
    if cands.len() == 0 {
        let all = join_strings(names, ", ");
        return Some(m1("available_worktrees", all.as_str(), japanese));
    }
    let ghost c = string_views(cands@);
    let ghost ck = key_views(keys@);
    let order = stable_sort_by_keys(&mut cands, &mut keys);
    assert(string_views(cands@) =~= permuted(c, order@));
    let mut best: Vec<String> = Vec::new();
    let count: usize = if cands.len() < 3 {
        cands.len()
    } else {
        3
    };
    for i in 0..count
        invariant
            count <= cands.len(),
            string_views(best@) == string_views(cands@).take(i as int),
    {
        let ghost b0 = string_views(best@);
        let x = cands[i].clone();
        assert(x@ == cands@[i as int]@);
        best.push(x);
        assert(string_views(best@) =~= b0.push(x@));
        assert(string_views(best@) =~= string_views(cands@).take(i + 1));
    }
    let joined = join_strings(&best, ", ");
    let r = m1("did_you_mean", joined.as_str(), japanese);
    assert(is_stable_order(close_keys(typed@, nv), order@));
    Some(r)
}

/// The worktree the working directory lies in: the first whose path holds it, by name.
pub open spec fn current_index(cwd: Seq<char>, paths: Seq<Seq<char>>) -> int
    decreases paths.len(),
{
    if paths.len() == 0 {
        -1
    } else {
        let r = current_index(cwd, paths.drop_last());
        if r >= 0 {
            r
        } else if path_has_prefix(cwd, paths.last()) {
            paths.len() - 1
        } else {
            -1
        }
    }
}

proof fn lemma_current_index_none(cwd: Seq<char>, paths: Seq<Seq<char>>)
    requires
        forall|k: int| 0 <= k < paths.len() ==> !path_has_prefix(cwd, #[trigger] paths[k]),
    ensures
        current_index(cwd, paths) < 0,
    decreases paths.len(),
{
    if paths.len() > 0 {
        lemma_current_index_none(cwd, paths.drop_last());
    }
}

proof fn lemma_current_index_first(cwd: Seq<char>, paths: Seq<Seq<char>>, i: int)
    requires
        0 <= i < paths.len(),
        path_has_prefix(cwd, paths[i]),
        forall|k: int| 0 <= k < i ==> !path_has_prefix(cwd, #[trigger] paths[k]),
    ensures
        current_index(cwd, paths) == i,
    decreases paths.len(),
{
    if i < paths.len() - 1 {
        lemma_current_index_first(cwd, paths.drop_last(), i);
    } else {
        lemma_current_index_none(cwd, paths.drop_last());
    }
}

/// The name of the worktree the working directory `cwd` lies in, if any (all paths
/// resolved).
pub fn current_selection(cwd: &str, paths: &Vec<String>, base_dir: &str, worktrees_dir: &str) -> (r: Option<String>)
    ensures
        ({
            let i = current_index(cwd@, string_views(paths@));
            match r {
                Some(n) => i >= 0 && n@ == worktree_name_spec(paths@[i]@, base_dir@, worktrees_dir@),
                None => i < 0,
            }
        }),
{
    let ghost pv = string_views(paths@);
    for i in 0..paths.len()
        invariant
            pv == string_views(paths@),
            forall|k: int| 0 <= k < i ==> !path_has_prefix(cwd@, #[trigger] pv[k]),
    {
        if path_starts_with(cwd, paths[i].as_str()) {
            proof {
                lemma_current_index_first(cwd@, pv, i as int);
            }
            return Some(worktree_name(paths[i].as_str(), base_dir, worktrees_dir));
        }
    }
    proof {
        lemma_current_index_none(cwd@, pv);
    }
    None
}

pub open spec fn is_current(name: Seq<char>, current: Option<Seq<char>>) -> bool {
    current == Some(name)
}

pub open spec fn opt_text(o: Option<&str>) -> Option<Seq<char>> {
    match o {
        Some(s) => Some(s@),
        None => None,
    }
}

/// `wt select` with no name and no `fzf` on a terminal: the names, one per line, the
/// current one in bold yellow.
pub open spec fn listing_line(name: Seq<char>, current: Option<Seq<char>>) -> Seq<char> {
    if is_current(name, current) {
        "\x1b[33m\x1b[1m"@ + name + "\x1b[0m"@
    } else {
        name
    }
}

pub fn selection_listing(names: &Vec<String>, current: Option<&str>) -> (r: Vec<String>)
    ensures
        r.len() == names.len(),
        forall|i: int| 0 <= i < r.len() ==> #[trigger] r@[i]@ == listing_line(names@[i]@, opt_text(current)),
{
    let mut out: Vec<String> = Vec::new();
    for i in 0..names.len()
        invariant
            out.len() == i,
            forall|k: int| 0 <= k < i ==> #[trigger] out@[k]@ == listing_line(names@[k]@, opt_text(current)),
    {
        let n = names[i].as_str();
        let cur = match current {
            Some(c) => str_eq(c, n),
            None => false,
        };
        if cur {
            let mut t = String::from_str("\x1b[33m\x1b[1m");
            t.append(n);
            t.append("\x1b[0m");
            out.push(t);
        } else {
            out.push(String::from_str(n));
        }
    }
    out
}

/// What `fzf` is given: one name per line, the current one marked ` (*)`.
pub open spec fn fzf_line(name: Seq<char>, current: Option<Seq<char>>) -> Seq<char> {
    if is_current(name, current) {
        name + " (*)\n"@
    } else {
        name + "\n"@
    }
}

pub open spec fn fzf_text(names: Seq<Seq<char>>, current: Option<Seq<char>>) -> Seq<char>
    decreases names.len(),
{
    if names.len() == 0 {
        seq![]
    } else {
        fzf_text(names.drop_last(), current) + fzf_line(names.last(), current)
    }
}

pub fn fzf_input(names: &Vec<String>, current: Option<&str>) -> (r: String)
    ensures
        r@ == fzf_text(string_views(names@), opt_text(current)),
{
    let ghost nv = string_views(names@);
    let mut out = String::new();
    for i in 0..names.len()
        invariant
            nv == string_views(names@),
            out@ == fzf_text(nv.take(i as int), opt_text(current)),
    {
        assert(nv.take(i + 1).drop_last() =~= nv.take(i as int));
        let n = names[i].as_str();
        out.append(n);
        let cur = match current {
            Some(c) => str_eq(c, n),
            None => false,
        };
        if cur {
            out.append(" (*)\n");
        } else {
            out.append("\n");
        }
    }
    assert(nv.take(names.len() as int) =~= nv);
    out
}

/// The numbered menu offered when `fzf` is missing: `1) name`, the current one marked.
pub open spec fn menu_line(k: int, name: Seq<char>, current: Option<Seq<char>>) -> Seq<char> {
    decimal(k as nat) + ") "@ + name + if is_current(name, current) {
        " (*)"@
    } else {
        seq![]
    }
}

pub fn numbered_menu(names: &Vec<String>, current: Option<&str>) -> (r: Vec<String>)
    ensures
        r.len() == names.len(),
        forall|i: int| 0 <= i < r.len() ==> #[trigger] r@[i]@ == menu_line(i + 1, names@[i]@, opt_text(current)),
{
    let mut out: Vec<String> = Vec::new();
    for i in 0..names.len()
        invariant
            out.len() == i,
            forall|k: int| 0 <= k < i ==> #[trigger] out@[k]@ == menu_line(k + 1, names@[k]@, opt_text(current)),
    {
        let n = names[i].as_str();
        let mut t = decimal_string((i + 1) as u64);
        t.append(") ");
        t.append(n);
        let cur = match current {
            Some(c) => str_eq(c, n),
            None => false,
        };
        if cur {
            t.append(" (*)");
        }
        out.push(t);
    }
    out
}

/// The menu answer's worktree: a name typed exactly wins over a number; else the number
/// of a line of the menu.
pub open spec fn choice_spec(answer: Seq<char>, names: Seq<Seq<char>>) -> Option<Seq<char>> {
    let a = trim(answer);
    if names.contains(a) {
        Some(a)
    } else {
        match parse_usize_spec(a) {
            Some(k) => if 1 <= k <= names.len() {
                Some(names[k - 1])
            } else {
                None
            },
            None => None,
        }
    }
}

pub fn resolve_choice(answer: &str, names: &Vec<String>) -> (r: Option<String>)
    ensures
        match r {
            Some(n) => choice_spec(answer@, string_views(names@)) == Some(n@),
            None => choice_spec(answer@, string_views(names@)) is None,
        },
{
    let ghost nv = string_views(names@);
    let a = trim_chars(&chars_of(answer));
    let astr = string_of(&a);
    for i in 0..names.len()
        invariant
            nv == string_views(names@),
            astr@ == trim(answer@),
            forall|k: int| 0 <= k < i ==> nv[k] != astr@,
    {
        if str_eq(names[i].as_str(), astr.as_str()) {
            assert(nv[i as int] == astr@);
            return Some(names[i].clone());
        }
    }
    match parse_usize(&a) {
        Some(k) => {
            if 1 <= k && k <= names.len() {
                Some(names[k - 1].clone())
            } else {
                None
            }
        },
        None => None,
    }
}

/// `wt select -`: the worktree recorded as the last one, if the record names one.
pub fn last_selection_target(record: &str) -> (r: Option<String>)
    ensures
        match r {
            Some(t) => t@ == trim(record@) && t@.len() > 0,
            None => trim(record@).len() == 0,
        },
{
    let t = trim_chars(&chars_of(record));
    if t.len() == 0 {
        None
    } else {
        Some(string_of(&t))
    }
}

/// Switching to `target` from `current`: what to record as the last selection and
/// whether to announce the switch (only when the selection changes).
pub fn switch_record(target: &str, current: Option<&str>) -> (r: (Option<String>, bool))
    ensures
        r.1 == (opt_text(current) != Some(target@)),
        match r.0 {
            Some(s) => r.1 && opt_text(current) == Some(s@),
            None => !r.1 || current is None,
        },
{
    match current {
        Some(c) => {
            if str_eq(c, target) {
                (None, false)
            } else {
                (Some(String::from_str(c)), true)
            }
        },
        None => (None, true),
    }
}

/// The prompt of the shell opened in a worktree: `(wt:<target>) ` before the usual one
/// (`$ ` when there is none).
pub fn session_prompt(target: &str, ps1: Option<&str>) -> (r: String)
    ensures
        r@ == "(wt:"@ + target@ + ") "@ + match ps1 {
            Some(p) => p@,
            None => "$ "@,
        },
{
    let mut s = String::from_str("(wt:");
    s.append(target);
    s.append(") ");
    match ps1 {
        Some(p) => s.append(p),
        None => s.append("$ "),
    }
    s
}

/// The arguments that make the shell run `command` first and then stay: `-c` with the
/// command and `exec <shell>` for a Unix shell, `/K` with the command for `cmd`.
pub fn session_shell_args(command: &Vec<String>, shell: &str, unix_like: bool) -> (r: Vec<String>)
    ensures
        string_views(r@) == if unix_like {
            seq!["-c"@, join(string_views(command@), " "@) + "; exec "@ + shell@]
        } else {
            seq!["/K"@, join(string_views(command@), " "@)]
        },
{
    let joined = join_strings(command, " ");
    let mut out: Vec<String> = Vec::new();
    if unix_like {
        out.push(String::from_str("-c"));
        let mut c = joined;
        c.append("; exec ");
        c.append(shell);
        out.push(c);
    } else {
        out.push(String::from_str("/K"));
        out.push(joined);
    }
    assert(string_views(out@) =~= if unix_like {
        seq!["-c"@, join(string_views(command@), " "@) + "; exec "@ + shell@]
    } else {
        seq!["/K"@, join(string_views(command@), " "@)]
    });
    out
}

/// `wt current`: the name of the worktree whose directory is the working directory
/// (all paths resolved).
pub fn current_worktree(cwd: &str, paths: &Vec<String>, base_dir: &str, worktrees_dir: &str) -> (r: Option<String>)
    ensures
        ({
            let i = first_true(paths.len() as int, |k: int| path_equal(cwd@, paths@[k]@));
            match r {
                Some(n) => i >= 0 && n@ == worktree_name_spec(paths@[i]@, base_dir@, worktrees_dir@),
                None => i < 0,
            }
        }),
{
    let ghost p = |k: int| path_equal(cwd@, paths@[k]@);
    for i in 0..paths.len()
        invariant
            p == (|k: int| path_equal(cwd@, paths@[k]@)),
            forall|k: int| 0 <= k < i ==> !#[trigger] p(k),
    {
        if same_path(cwd, paths[i].as_str()) {
            proof {
                lemma_first_true_at(paths.len() as int, p, i as int);
            }
            return Some(worktree_name(paths[i].as_str(), base_dir, worktrees_dir));
        }
    }
    proof {
        lemma_first_true_none(paths.len() as int, p);
    }
    None
}


/// The index of the first worktree whose directory is `cwd` (all paths resolved).
pub fn worktree_at(cwd: &str, paths: &Vec<String>) -> (r: Option<usize>)
    ensures
        ({
            let i = first_true(paths.len() as int, |k: int| path_equal(cwd@, paths@[k]@));
            match r {
                Some(j) => i >= 0 && j == i,
                None => i < 0,
            }
        }),
{
    let ghost p = |k: int| path_equal(cwd@, paths@[k]@);
    for i in 0..paths.len()
        invariant
            p == (|k: int| path_equal(cwd@, paths@[k]@)),
            forall|k: int| 0 <= k < i ==> !#[trigger] p(k),
    {
        if same_path(cwd, paths[i].as_str()) {
            proof {
                lemma_first_true_at(paths.len() as int, p, i as int);
            }
            return Some(i);
        }
    }
    proof {
        lemma_first_true_none(paths.len() as int, p);
    }
    None
}

/// The branch of the first listed worktree whose resolved path is exactly `target`.
pub fn branch_at(resolved: &Vec<String>, branches: &Vec<String>, target: &str) -> (r: Option<String>)
    requires
        resolved.len() == branches.len(),
    ensures
        ({
            let i = crate::listing::first_index(string_views(resolved@), target@);
            match r {
                Some(b) => i >= 0 && b@ == branches@[i]@,
                None => i < 0,
            }
        }),
{
    proof {
        crate::listing::lemma_first_index(string_views(resolved@), target@);
    }
    for i in 0..resolved.len()
        invariant
            resolved.len() == branches.len(),
            forall|k: int| 0 <= k < i ==> resolved@[k]@ != target@,
            -1 <= crate::listing::first_index(string_views(resolved@), target@) < resolved.len(),
            crate::listing::first_index(string_views(resolved@), target@) >= 0 ==> string_views(
                resolved@,
            )[crate::listing::first_index(string_views(resolved@), target@)] == target@,
            crate::listing::first_index(string_views(resolved@), target@) < 0 <==> !string_views(
                resolved@,
            ).contains(target@),
            forall|k: int|
                0 <= k < crate::listing::first_index(string_views(resolved@), target@)
                    ==> string_views(resolved@)[k] != target@,
    {
        if str_eq(resolved[i].as_str(), target) {
            proof {
                let v = string_views(resolved@);
                assert(v[i as int] == target@);
                assert(v.contains(target@));
                let f = crate::listing::first_index(v, target@);
                if f < i {
                    assert(v[f] == resolved@[f]@);
                }
            }
            return Some(crate::config::owned(branches[i].as_str()));
        }
    }
    proof {
        if string_views(resolved@).contains(target@) {
            let k = choose|k: int| 0 <= k < string_views(resolved@).len() && string_views(resolved@)[k] == target@;
            assert(resolved@[k]@ == target@);
        }
    }
    None
}


/// Distance keys order as the distances do, for distances the machine can count.
proof fn lemma_distance_key_order(d1: nat, d2: nat)
    requires
        d1 < 0x1_0000_0000_0000_0000,
        d2 < 0x1_0000_0000_0000_0000,
        crate::order::lex_le(distance_key(d1), distance_key(d2)),
    ensures
        d1 <= d2,
{
    let c: int = 0x1_0000_0000;
    let h1: int = d1 as int / c;
    let l1: int = d1 as int % c;
    let h2: int = d2 as int / c;
    let l2: int = d2 as int % c;
    assert(d1 == c * h1 + l1 && 0 <= l1 < c) by (nonlinear_arith)
        requires c == 0x1_0000_0000, h1 == d1 as int / c, l1 == d1 as int % c;
    assert(d2 == c * h2 + l2 && 0 <= l2 < c) by (nonlinear_arith)
        requires c == 0x1_0000_0000, h2 == d2 as int / c, l2 == d2 as int % c;
    assert(0 <= h1 < c) by (nonlinear_arith)
        requires d1 == c * h1 + l1, 0 <= l1 < c, c == 0x1_0000_0000, d1 < 0x1_0000_0000_0000_0000;
    assert(0 <= h2 < c) by (nonlinear_arith)
        requires d2 == c * h2 + l2, 0 <= l2 < c, c == 0x1_0000_0000, d2 < 0x1_0000_0000_0000_0000;
    let k1 = distance_key(d1);
    let k2 = distance_key(d2);
    assert(k1[0] == h1 && k1[1] == l1 && k2[0] == h2 && k2[1] == l2);
    assert(k1.drop_first()[0] == l1 && k2.drop_first()[0] == l2);
    assert(k1.drop_first().drop_first().len() == 0 && k2.drop_first().drop_first().len() == 0);
    if h1 != h2 {
        assert(h1 < h2);
        assert(d1 < d2) by (nonlinear_arith)
            requires d1 == c * h1 + l1, d2 == c * h2 + l2, 0 <= l1 < c, 0 <= l2 < c, h1 < h2, c > 0;
    } else {
        assert(!crate::order::lex_lt(k2.drop_first(), k1.drop_first()));
        assert(l1 <= l2);
    }
}

/// Every name offered is close to what was typed and is one of the names.
proof fn lemma_close_names_members(typed: Seq<char>, names: Seq<Seq<char>>)
    ensures
        forall|i: int|
            0 <= i < close_names(typed, names).len() ==> is_close(
                typed,
                #[trigger] close_names(typed, names)[i],
            ) && names.contains(close_names(typed, names)[i]),
    decreases names.len(),
{
    if names.len() > 0 {
        lemma_close_names_members(typed, names.drop_last());
        let c = close_names(typed, names);
        let c0 = close_names(typed, names.drop_last());
        assert forall|i: int| 0 <= i < c.len() implies is_close(typed, #[trigger] c[i]) && names.contains(c[i]) by {
            if i < c0.len() {
                assert(c[i] == c0[i]);
                let k = choose|k: int| 0 <= k < names.drop_last().len() && names.drop_last()[k] == c0[i];
                assert(names[k] == c0[i]);
            } else {
                assert(c[i] == names.last());
                assert(names[names.len() - 1] == names.last());
            }
        }
    }
}

/// Law: when some names are close to what was typed, the suggestion lists them nearest
/// first: the close names in an order of non-decreasing edit distance, of which the first
/// three (or all, when fewer) are shown, so no close name left out is nearer than one
/// shown. Every name shown is close to what was typed and is one of the names.
pub proof fn lemma_suggestions_nearest_first(
    r: Option<Seq<char>>,
    typed: Seq<char>,
    names: Seq<Seq<char>>,
    japanese: bool,
)
    requires
        suggestion_matches(r, typed, names, japanese),
        close_names(typed, names).len() > 0,
        typed.len() <= usize::MAX,
        forall|i: int| 0 <= i < names.len() ==> (#[trigger] names[i]).len() <= usize::MAX,
    ensures
        exists|p: Seq<int>|
            #![trigger permuted(close_names(typed, names), p)]
            {
                let c = close_names(typed, names);
                let order = permuted(c, p);
                &&& crate::order::is_permutation(p, c.len() as int)
                &&& forall|i: int, j: int|
                    0 <= i < j < order.len() ==> edit_distance(typed, #[trigger] order[i])
                        <= edit_distance(typed, #[trigger] order[j])
                &&& forall|i: int|
                    0 <= i < order.len() ==> is_close(typed, #[trigger] order[i]) && names.contains(
                        order[i],
                    )
                &&& r == Some(
                    msg_spec(
                        "did_you_mean"@,
                        seq![join(order.take(if c.len() < 3 { c.len() as int } else { 3 }), ", "@)],
                        japanese,
                    ),
                )
            },
{
    let c = close_names(typed, names);
    let keys = close_keys(typed, names);
    lemma_close_names_members(typed, names);
    let p = choose|p: Seq<int>|
        is_stable_order(close_keys(typed, names), p) && r == Some(
            msg_spec(
                "did_you_mean"@,
                seq![join(permuted(c, p).take(if c.len() < 3 { c.len() as int } else { 3 }), ", "@)],
                japanese,
            ),
        );
    let order = permuted(c, p);
    assert forall|k: int| 0 <= k < c.len() implies edit_distance(typed, #[trigger] c[k])
        < 0x1_0000_0000_0000_0000 by {
        let m = choose|m: int| 0 <= m < names.len() && names[m] == c[k];
        lemma_edit_distance_bound(typed, c[k]);
        assert(names[m].len() <= usize::MAX);
    }
    assert forall|i: int, j: int| 0 <= i < j < order.len() implies edit_distance(
        typed,
        #[trigger] order[i],
    ) <= edit_distance(typed, #[trigger] order[j]) by {
        assert(crate::order::lex_le(keys[p[i]], keys[p[j]]));
        assert(order[i] == c[p[i]] && order[j] == c[p[j]]);
        lemma_distance_key_order(edit_distance(typed, c[p[i]]), edit_distance(typed, c[p[j]]));
    }
    assert forall|i: int| 0 <= i < order.len() implies is_close(typed, #[trigger] order[i])
        && names.contains(order[i]) by {
        assert(order[i] == c[p[i]]);
    }
}

} // verus!
