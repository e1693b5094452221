use vstd::prelude::*;
use crate::text::{str_eq, all_digits, eq_ignore_ascii_case, eq_ignore_ascii_case_chars, is_digit, parse_i64, parse_i64_spec, chars_eq, chars_of, contains, contains_chars, replace_all, replace_chars, split_chars, split_on, string_of, string_views, views};

verus! {

/// A configuration value: the TOML data model, where the scalars that the
/// tool never inspects (floats, dates and times) are kept as their TOML text.
pub enum ConfigValue {
    Str(String),
    Int(i64),
    Bool(bool),
    Other(String),
    Array(Vec<ConfigValue>),
    Table(Vec<(String, ConfigValue)>),
}

/// The mathematical model of a configuration value.
pub enum Cfg {
    Str(Seq<char>),
    Int(i64),
    Bool(bool),
    Other(Seq<char>),
    Array(Seq<Cfg>),
    Table(Seq<(Seq<char>, Cfg)>),
}

pub open spec fn view_value(v: ConfigValue) -> Cfg
    decreases v,
{
    match v {
        ConfigValue::Str(s) => Cfg::Str(s@),
        ConfigValue::Int(i) => Cfg::Int(i),
        ConfigValue::Bool(b) => Cfg::Bool(b),
        ConfigValue::Other(s) => Cfg::Other(s@),
        ConfigValue::Array(items) => Cfg::Array(view_items(items@)),
        ConfigValue::Table(entries) => Cfg::Table(view_entries(entries@)),
    }
}

pub open spec fn view_items(s: Seq<ConfigValue>) -> Seq<Cfg>
    decreases s,
{
    if s.len() == 0 {
        seq![]
    } else {
        view_items(s.drop_last()).push(view_value(s.last()))
    }
}

pub open spec fn view_entries(s: Seq<(String, ConfigValue)>) -> Seq<(Seq<char>, Cfg)>
    decreases s,
{
    if s.len() == 0 {
        seq![]
    } else {
        view_entries(s.drop_last()).push((s.last().0@, view_value(s.last().1)))
    }
}

impl View for ConfigValue {
    type V = Cfg;

    open spec fn view(&self) -> Cfg {
        view_value(*self)
    }
}

pub broadcast proof fn lemma_view_items(s: Seq<ConfigValue>)
    ensures
        #[trigger] view_items(s).len() == s.len(),
        forall|i: int| 0 <= i < s.len() ==> #[trigger] view_items(s)[i] == view_value(s[i]),
    decreases s.len(),
{
    if s.len() > 0 {
        lemma_view_items(s.drop_last());
    }
}

pub broadcast proof fn lemma_view_entries(s: Seq<(String, ConfigValue)>)
    ensures
        #[trigger] view_entries(s).len() == s.len(),
        forall|i: int|
            0 <= i < s.len() ==> #[trigger] view_entries(s)[i] == (s[i].0@, view_value(s[i].1)),
    decreases s.len(),
{
    if s.len() > 0 {
        lemma_view_entries(s.drop_last());
    }
}

pub broadcast group group_config_views {
    lemma_view_items,
    lemma_view_entries,
}

/// Index of the first entry with key `k`, or -1.
pub open spec fn find_key(e: Seq<(Seq<char>, Cfg)>, k: Seq<char>) -> int
    decreases e.len(),
{
    if e.len() == 0 {
        -1
    } else if e[0].0 == k {
        0
    } else {
        let r = find_key(e.drop_first(), k);
        if r < 0 {
            -1
        } else {
            r + 1
        }
    }
}

pub proof fn lemma_find_key(e: Seq<(Seq<char>, Cfg)>, k: Seq<char>)
    ensures
        -1 <= find_key(e, k) < e.len(),
        find_key(e, k) >= 0 ==> e[find_key(e, k)].0 == k,
        forall|j: int|
            0 <= j < e.len() && (find_key(e, k) < 0 || j < find_key(e, k)) ==> #[trigger] e[j].0
                != k,
    decreases e.len(),
{
    if e.len() > 0 {
        lemma_find_key(e.drop_first(), k);
        assert forall|j: int|
            0 <= j < e.len() && (find_key(e, k) < 0 || j < find_key(e, k)) implies #[trigger] e[j].0
            != k by {
            if j > 0 {
                assert(e.drop_first()[j - 1] == e[j]);
            }
        }
    }
}

pub proof fn lemma_find_key_unique(e: Seq<(Seq<char>, Cfg)>, k: Seq<char>, i: int)
    requires
        0 <= i < e.len(),
        e[i].0 == k,
        forall|j: int| 0 <= j < i ==> #[trigger] e[j].0 != k,
    ensures
        find_key(e, k) == i,
{
    lemma_find_key(e, k);
}

/// The value a table holds under a key (`toml::Value::get` with a string key).
pub open spec fn cfg_get(v: Cfg, k: Seq<char>) -> Option<Cfg> {
    match v {
        Cfg::Table(e) => {
            let i = find_key(e, k);
            if i < 0 {
                None
            } else {
                Some(e[i].1)
            }
        },
        _ => None,
    }
}

/// The text of a string value.
pub open spec fn cfg_as_str(v: Option<Cfg>) -> Option<Seq<char>> {
    match v {
        Some(Cfg::Str(s)) => Some(s),
        _ => None,
    }
}

/// Index of the first entry with key `k` in an executable table.
pub fn table_find(entries: &Vec<(String, ConfigValue)>, k: &str) -> (r: Option<usize>)
    ensures
        match r {
            Some(i) => find_key(view_entries(entries@), k@) == i as int && i < entries.len(),
            None => find_key(view_entries(entries@), k@) < 0,
        },
{
    broadcast use group_config_views;

    let kc = chars_of(k);
    let ghost e = view_entries(entries@);
    proof {
        lemma_view_entries(entries@);
    }
    for i in 0..entries.len()
        invariant
            e == view_entries(entries@),
            e.len() == entries@.len(),
            forall|j: int| 0 <= j < e.len() ==> #[trigger] e[j].0 == entries@[j].0@,
            kc@ == k@,
            forall|j: int| 0 <= j < i ==> #[trigger] e[j].0 != k@,
    {
        let c = chars_of(entries[i].0.as_str());
        if chars_eq(&c, &kc) {
            proof {
                lemma_find_key_unique(e, k@, i as int);
            }
            return Some(i);
        }
    }
    proof {
        lemma_find_key(e, k@);
    }
    None
}

/// `toml::Value::get` with a string key.
pub fn value_get<'a>(v: &'a ConfigValue, k: &str) -> (r: Option<&'a ConfigValue>)
    ensures
        match r {
            Some(x) => cfg_get(v@, k@) == Some(x@),
            None => cfg_get(v@, k@) is None,
        },
{
    broadcast use group_config_views;

    match v {
        ConfigValue::Table(entries) => {
            proof {
                lemma_view_entries(entries@);
            }
            match table_find(entries, k) {
                Some(i) => Some(&entries[i].1),
                None => None,
            }
        },
        _ => None,
    }
}

/// `toml::Value::as_str`.
pub fn value_as_str<'a>(v: Option<&'a ConfigValue>) -> (r: Option<&'a String>)
    ensures
        match r {
            Some(s) => (match v {
                Some(x) => cfg_as_str(Some(x@)) == Some(s@),
                None => false,
            }),
            None => match v {
                Some(x) => cfg_as_str(Some(x@)) is None,
                None => true,
            },
        },
{
    match v {
        Some(ConfigValue::Str(s)) => Some(s),
        _ => None,
    }
}

} // verus!

verus! {

/// Deep merge of `s` into `t`: tables merge key by key, anything else is replaced by `s`.
pub open spec fn merge(t: Cfg, s: Cfg) -> Cfg
    decreases s, 2nat,
{
    match s {
        Cfg::Table(se) => match t {
            Cfg::Table(te) => Cfg::Table(merge_entries(te, se)),
            _ => s,
        },
        _ => s,
    }
}

/// The table entries `te` after merging in the entries `se` one by one.
pub open spec fn merge_entries(te: Seq<(Seq<char>, Cfg)>, se: Seq<(Seq<char>, Cfg)>) -> Seq<
    (Seq<char>, Cfg),
>
    decreases se, 1nat,
{
    if se.len() == 0 {
        te
    } else {
        let k = se[0].0;
        let i = find_key(te, k);
        let te2 = if 0 <= i < te.len() {
            te.update(i, (k, merge(te[i].1, se[0].1)))
        } else {
            te.push((k, se[0].1))
        };
        merge_entries(te2, se.subrange(1, se.len() as int))
    }
}

proof fn lemma_merge_entries_step(te: Seq<(Seq<char>, Cfg)>, se: Seq<(Seq<char>, Cfg)>)
    requires
        se.len() > 0,
    ensures
        ({
            let k = se[0].0;
            let i = find_key(te, k);
            let te2 = if 0 <= i < te.len() {
                te.update(i, (k, merge(te[i].1, se[0].1)))
            } else {
                te.push((k, se[0].1))
            };
            merge_entries(te, se) == merge_entries(te2, se.drop_first())
        }),
{
    assert(se.subrange(1, se.len() as int) =~= se.drop_first());
}

/// Deep merge of configuration values (by value).
pub fn merge_values(t: ConfigValue, s: ConfigValue) -> (r: ConfigValue)
    ensures
        r@ == merge(t@, s@),
    decreases s,
{
    match s {
        ConfigValue::Table(se) => match t {
            ConfigValue::Table(te) => {
                let m = merge_tables(te, se);
                ConfigValue::Table(m)
            },
            _ => ConfigValue::Table(se),
        },
        _ => s,
    }
}

/// Deep merge of table entries.
pub fn merge_tables(te: Vec<(String, ConfigValue)>, se: Vec<(String, ConfigValue)>) -> (r: Vec<
    (String, ConfigValue),
>)
    ensures
        view_entries(r@) == merge_entries(view_entries(te@), view_entries(se@)),
    decreases se,
{
    broadcast use group_config_views;

    let ghost se0 = se@;
    let ghost se_val = se;
    let mut acc = te;
    let mut rest = se;
    let ghost mut j: int = 0;
    assert(se0.skip(0) =~= se0);
    while rest.len() > 0
        invariant
            se_val == se,
            se_val@ == se0,
            0 <= j <= se0.len(),
            rest@ == se0.skip(j),
            merge_entries(view_entries(te@), view_entries(se0)) == merge_entries(
                view_entries(acc@),
                view_entries(rest@),
            ),
        decreases rest.len(),
    {
        let ghost acc0 = acc@;
        let ghost rest0 = rest@;
        proof {
            lemma_merge_entries_step(view_entries(acc0), view_entries(rest0));
            lemma_view_entries(rest0);
            lemma_view_entries(rest0.drop_first());
            assert forall|x: int| 0 <= x < view_entries(rest0.drop_first()).len() implies view_entries(rest0).drop_first()[x] == #[trigger] view_entries(rest0.drop_first())[x] by {
                assert(rest0.drop_first()[x] == rest0[x + 1]);
            }
            assert(view_entries(rest0).drop_first() =~= view_entries(rest0.drop_first()));
        }
        let (k, v) = rest.remove(0);
        proof {
            assert(rest0[0] == se0[j]);
            assert(rest@ =~= se0.skip(j + 1));
            j = j + 1;
        }
        match table_find(&acc, k.as_str()) {
            Some(i) => {
                let (k0, old) = acc.remove(i);
                proof {
                    assert(v == se0[j - 1].1);
                    assert(decreases_to!(se_val => se_val@));
                    assert(decreases_to!(se0 => se0[j - 1]));
                    assert(decreases_to!(se0[j - 1] => se0[j - 1].1));
                    assert(se_val@ == se0);
                    assert(decreases_to!(se_val => se0[j - 1]));
                    assert(decreases_to!(se_val => se0[j - 1].1));
                    assert(decreases_to!(se_val => v));
                }
                let m = merge_values(old, v);
                acc.insert(i, (k0, m));
                proof {
                    let e = view_entries(acc0);
                    lemma_find_key(e, k@);
                    lemma_view_entries(acc0);
                    lemma_view_entries(acc@);
                    assert(e[i as int].0 == k@);
                    assert(acc@ == acc0.update(i as int, (k0, m)));
                    assert forall|x: int| 0 <= x < acc@.len() implies #[trigger] view_entries(acc@)[x] == e.update(
                        i as int,
                        (k@, merge(e[i as int].1, view_value(v))),
                    )[x] by {
                        if x == i {
                            assert(k0 == acc0[i as int].0);
                        }
                    }
                    assert(view_entries(acc@) =~= e.update(
                        i as int,
                        (k@, merge(e[i as int].1, view_value(v))),
                    ));
                }
            },
            None => {
                acc.push((k, v));
                proof {
                    lemma_view_entries(acc0);
                    lemma_view_entries(acc@);
                    assert(view_entries(acc@) =~= view_entries(acc0).push((k@, view_value(v))));
                }
            },
        }
    }
    assert(view_entries(rest@) =~= Seq::<(Seq<char>, Cfg)>::empty());
    acc
}

/// `deep_merge`: merges `source` into `target` in place.
pub fn deep_merge(target: &mut ConfigValue, source: ConfigValue)
    ensures
        final(target)@ == merge(old(target)@, source@),
{
    let mut t = ConfigValue::Bool(false);
    std::mem::swap(&mut t, target);
    *target = merge_values(t, source);
}

} // verus!

verus! {

/// An owned copy of a string slice.
pub fn owned(s: &str) -> (r: String)
    ensures
        r@ == s@,
{
    s.to_owned()
}

/// Tables nested along `parts`, with `v` at the innermost key.
pub open spec fn nest(parts: Seq<Seq<char>>, v: Cfg) -> Cfg
    decreases parts.len(),
{
    if parts.len() == 0 {
        v
    } else {
        Cfg::Table(seq![(parts[0], nest(parts.drop_first(), v))])
    }
}

/// The value found by following the keys `parts` from `v`.
pub open spec fn key_get(v: Cfg, parts: Seq<Seq<char>>) -> Option<Cfg>
    decreases parts.len(),
{
    if parts.len() == 0 {
        Some(v)
    } else {
        match cfg_get(v, parts[0]) {
            None => None,
            Some(x) => key_get(x, parts.drop_first()),
        }
    }
}

/// `nested_update`: a value holding `value` under the dotted `key`.
pub fn nested_update(key: &str, value: ConfigValue) -> (r: ConfigValue)
    ensures
        r@ == nest(split_on(key@, '.'), value@),
{
    broadcast use group_config_views;

    let kc = chars_of(key);
    let parts = split_chars(&kc, '.');
    let ghost ps = views(parts@);
    let mut current = value;
    let mut i: usize = parts.len();
    assert(ps.skip(ps.len() as int) =~= Seq::<Seq<char>>::empty());
    while i > 0
        invariant
            i <= parts.len(),
            ps == views(parts@),
            ps.len() == parts.len(),
            current@ == nest(ps.skip(i as int), value@),
        decreases i,
    {
        i = i - 1;
        let part = string_of(&parts[i]);
        assert(ps.skip(i as int).drop_first() =~= ps.skip(i + 1));
        assert(ps.skip(i as int)[0] == ps[i as int]);
        let mut entries: Vec<(String, ConfigValue)> = Vec::new();
        entries.push((part, current));
        proof {
            lemma_view_entries(entries@);
            assert(view_entries(entries@) =~= seq![(ps[i as int], nest(ps.skip(i + 1), value@))]);
        }
        current = ConfigValue::Table(entries);
    }
    assert(ps.skip(0) =~= ps);
    current
}

/// `config_key_get`: the value under a dotted key.
pub fn config_key_get<'a>(config: &'a ConfigValue, key: &str) -> (r: Option<&'a ConfigValue>)
    ensures
        match r {
            Some(x) => key_get(config@, split_on(key@, '.')) == Some(x@),
            None => key_get(config@, split_on(key@, '.')) is None,
        },
{
    let kc = chars_of(key);
    let parts = split_chars(&kc, '.');
    let ghost ps = views(parts@);
    let mut value = config;
    assert(ps.skip(0) =~= ps);
    for i in 0..parts.len()
        invariant
            ps == views(parts@),
            ps.len() == parts.len(),
            ps == split_on(key@, '.'),
            key_get(config@, ps) == key_get(value@, ps.skip(i as int)),
    {
        assert(ps.skip(i as int).drop_first() =~= ps.skip(i + 1));
        assert(ps.skip(i as int)[0] == ps[i as int]);
        let part = string_of(&parts[i]);
        match value_get(value, part.as_str()) {
            None => {
                assert(part@ == ps[i as int]);
                assert(key_get(value@, ps.skip(i as int)) is None);
                return None;
            },
            Some(x) => {
                assert(part@ == ps[i as int]);
                value = x;
            },
        }
    }
    assert(ps.skip(parts.len() as int).len() == 0);
    Some(value)
}

proof fn lemma_find_key_update(e: Seq<(Seq<char>, Cfg)>, k: Seq<char>, x: Cfg)
    requires
        find_key(e, k) >= 0,
    ensures
        find_key(e.update(find_key(e, k), (k, x)), k) == find_key(e, k),
{
    lemma_find_key(e, k);
    let i = find_key(e, k);
    let e2 = e.update(i, (k, x));
    assert forall|j: int| 0 <= j < i implies #[trigger] e2[j].0 != k by {
        assert(e2[j] == e[j]);
    }
    lemma_find_key_unique(e2, k, i);
}

proof fn lemma_find_key_push(e: Seq<(Seq<char>, Cfg)>, k: Seq<char>, x: Cfg)
    requires
        find_key(e, k) < 0,
    ensures
        find_key(e.push((k, x)), k) == e.len(),
{
    lemma_find_key(e, k);
    let e2 = e.push((k, x));
    assert forall|j: int| 0 <= j < e.len() implies #[trigger] e2[j].0 != k by {
        assert(e2[j] == e[j]);
    }
    lemma_find_key_unique(e2, k, e.len() as int);
}

proof fn lemma_nest_get(parts: Seq<Seq<char>>, v: Cfg)
    ensures
        key_get(nest(parts, v), parts) == Some(v),
    decreases parts.len(),
{
    if parts.len() > 0 {
        let e = seq![(parts[0], nest(parts.drop_first(), v))];
        lemma_find_key_unique(e, parts[0], 0);
        lemma_nest_get(parts.drop_first(), v);
    }
}

proof fn lemma_get_other_after_update(te: Seq<(Seq<char>, Cfg)>, i: int, k: Seq<char>, x: Cfg, q: Seq<char>)
    requires
        0 <= i < te.len(),
        te[i].0 == k,
        q != k,
    ensures
        cfg_get(Cfg::Table(te.update(i, (k, x))), q) == cfg_get(Cfg::Table(te), q),
{
    let te2 = te.update(i, (k, x));
    lemma_find_key(te, q);
    lemma_find_key(te2, q);
    let j = find_key(te, q);
    if j >= 0 {
        assert forall|m: int| 0 <= m < j implies #[trigger] te2[m].0 != q by {
            assert(te2[m].0 == te[m].0);
        }
        lemma_find_key_unique(te2, q, j);
    } else {
        let f = find_key(te2, q);
        if f >= 0 {
            assert(te2[f].0 == te[f].0);
        }
    }
}

proof fn lemma_get_other_after_push(te: Seq<(Seq<char>, Cfg)>, k: Seq<char>, x: Cfg, q: Seq<char>)
    requires
        q != k,
    ensures
        cfg_get(Cfg::Table(te.push((k, x))), q) == cfg_get(Cfg::Table(te), q),
{
    let te2 = te.push((k, x));
    lemma_find_key(te, q);
    lemma_find_key(te2, q);
    let j = find_key(te, q);
    if j >= 0 {
        assert forall|m: int| 0 <= m < j implies #[trigger] te2[m].0 != q by {
            assert(te2[m] == te[m]);
        }
        lemma_find_key_unique(te2, q, j);
    } else {
        let f = find_key(te2, q);
        if f >= 0 && f < te.len() {
            assert(te2[f] == te[f]);
        }
    }
}

/// The dotted keys `q` and `parts` part ways: at some place both have a key, they differ,
/// and before it they agree.
pub open spec fn keys_part(parts: Seq<Seq<char>>, q: Seq<Seq<char>>) -> bool
    decreases parts.len(),
{
    parts.len() > 0 && q.len() > 0 && (parts[0] != q[0] || keys_part(
        parts.drop_first(),
        q.drop_first(),
    ))
}

proof fn lemma_nest_get_other(parts: Seq<Seq<char>>, v: Cfg, q: Seq<Seq<char>>)
    requires
        keys_part(parts, q),
    ensures
        key_get(nest(parts, v), q) is None,
    decreases parts.len(),
{
    let e = seq![(parts[0], nest(parts.drop_first(), v))];
    lemma_find_key(e, q[0]);
    if parts[0] == q[0] {
        lemma_find_key_unique(e, parts[0], 0);
        lemma_nest_get_other(parts.drop_first(), v, q.drop_first());
    } else {
        assert(e[0].0 != q[0]);
    }
}

/// Law: merging in `nested_update(key, value)` leaves every key that parts ways with `key`
/// as it was.
pub proof fn lemma_config_set_keeps_others(c: Cfg, parts: Seq<Seq<char>>, v: Cfg, q: Seq<Seq<char>>)
    requires
        keys_part(parts, q),
    ensures
        key_get(merge(c, nest(parts, v)), q) == key_get(c, q),
    decreases parts.len(),
{
    let rest = nest(parts.drop_first(), v);
    let k = parts[0];
    let se = seq![(k, rest)];
    assert(nest(parts, v) == Cfg::Table(se));
    match c {
        Cfg::Table(te) => {
            let i = find_key(te, k);
            lemma_find_key(te, k);
            let te2 = if 0 <= i < te.len() {
                te.update(i, (k, merge(te[i].1, rest)))
            } else {
                te.push((k, rest))
            };
            assert(se.subrange(1, se.len() as int) =~= Seq::<(Seq<char>, Cfg)>::empty());
            assert(merge_entries(te, se) == merge_entries(te2, se.subrange(1, se.len() as int)));
            assert(merge_entries(te2, Seq::<(Seq<char>, Cfg)>::empty()) == te2);
            assert(merge(c, nest(parts, v)) == Cfg::Table(te2));
            if q[0] != k {
                if 0 <= i < te.len() {
                    lemma_get_other_after_update(te, i, k, merge(te[i].1, rest), q[0]);
                } else {
                    lemma_get_other_after_push(te, k, rest, q[0]);
                }
            } else {
                if 0 <= i < te.len() {
                    lemma_find_key_update(te, k, merge(te[i].1, rest));
                    lemma_config_set_keeps_others(te[i].1, parts.drop_first(), v, q.drop_first());
                } else {
                    lemma_find_key_push(te, k, rest);
                    lemma_nest_get_other(parts.drop_first(), v, q.drop_first());
                }
            }
        },
        _ => {
            lemma_nest_get_other(parts, v, q);
        },
    }
}

/// Law: a key written by merging in `nested_update(key, value)` reads back as `value`
/// through `config_key_get`, whatever the configuration held before, when the value
/// written is not itself a table (as every value `wt config` writes).
pub proof fn lemma_config_set_then_get(c: Cfg, parts: Seq<Seq<char>>, v: Cfg)
    requires
        parts.len() > 0,
        !(v is Table),
    ensures
        key_get(merge(c, nest(parts, v)), parts) == Some(v),
    decreases parts.len(),
{
    let rest = nest(parts.drop_first(), v);
    let k = parts[0];
    let se = seq![(k, rest)];
    match c {
        Cfg::Table(te) => {
            let i = find_key(te, k);
            lemma_find_key(te, k);
            let te2 = if 0 <= i < te.len() {
                te.update(i, (k, merge(te[i].1, rest)))
            } else {
                te.push((k, rest))
            };
            assert(se.subrange(1, se.len() as int) =~= Seq::<(Seq<char>, Cfg)>::empty());
            assert(nest(parts, v) == Cfg::Table(se));
            assert(merge_entries(te, se) == merge_entries(te2, se.subrange(1, se.len() as int)));
            assert(merge_entries(te2, Seq::<(Seq<char>, Cfg)>::empty()) == te2);
            assert(merge(c, nest(parts, v)) == Cfg::Table(te2));
            if 0 <= i < te.len() {
                lemma_find_key_update(te, k, merge(te[i].1, rest));
                assert(cfg_get(Cfg::Table(te2), k) == Some(merge(te[i].1, rest)));
                if parts.len() == 1 {
                    assert(parts.drop_first().len() == 0);
                    assert(rest == v);
                    assert(merge(te[i].1, rest) == v);
                    assert(key_get(v, parts.drop_first()) == Some(v));
                } else {
                    lemma_config_set_then_get(te[i].1, parts.drop_first(), v);
                }
            } else {
                lemma_find_key_push(te, k, rest);
                assert(cfg_get(Cfg::Table(te2), k) == Some(rest));
                lemma_nest_get(parts.drop_first(), v);
            }
        },
        _ => {
            lemma_nest_get(parts, v);
        },
    }
}

} // verus!

verus! {

/// The placeholder that `{repo_name}` templates use.
pub open spec fn repo_name_placeholder() -> Seq<char> {
    seq!['{', 'r', 'e', 'p', 'o', '_', 'n', 'a', 'm', 'e', '}']
}

/// `resolve_templates`: in every string that contains `{repo_name}`, each occurrence
/// is replaced by the repository name.
pub open spec fn resolve(v: Cfg, r: Seq<char>) -> Cfg
    decreases v, 0nat,
{
    match v {
        Cfg::Str(s) => if contains(s, repo_name_placeholder()) {
            Cfg::Str(replace_all(s, repo_name_placeholder(), r))
        } else {
            v
        },
        Cfg::Array(items) => Cfg::Array(resolve_items(items, r)),
        Cfg::Table(e) => Cfg::Table(resolve_entries(e, r)),
        _ => v,
    }
}

pub open spec fn resolve_items(s: Seq<Cfg>, r: Seq<char>) -> Seq<Cfg>
    decreases s, 1nat,
{
    if s.len() == 0 {
        seq![]
    } else {
        resolve_items(s.drop_last(), r).push(resolve(s.last(), r))
    }
}

pub open spec fn resolve_entries(s: Seq<(Seq<char>, Cfg)>, r: Seq<char>) -> Seq<(Seq<char>, Cfg)>
    decreases s, 1nat,
{
    if s.len() == 0 {
        seq![]
    } else {
        resolve_entries(s.drop_last(), r).push((s.last().0, resolve(s.last().1, r)))
    }
}

fn placeholder_chars() -> (r: Vec<char>)
    ensures
        r@ == repo_name_placeholder(),
{
    let r = chars_of("{repo_name}");
    proof {
        reveal_strlit("{repo_name}");
    }
    assert(r@ =~= repo_name_placeholder());
    r
}

/// `resolve_templates`, by value.
pub fn resolve_value(v: ConfigValue, r: &Vec<char>) -> (out: ConfigValue)
    ensures
        out@ == resolve(v@, r@),
    decreases v,
{
    broadcast use group_config_views;

    let ghost v0 = v;
    match v {
        ConfigValue::Str(s) => {
            let sc = chars_of(s.as_str());
            let ph = placeholder_chars();
            if contains_chars(&sc, &ph) {
                let rc = replace_chars(&sc, &ph, r);
                ConfigValue::Str(string_of(&rc))
            } else {
                ConfigValue::Str(s)
            }
        },
        ConfigValue::Array(items) => {
            let ghost s0 = items@;
            let ghost items_val = items;
            assert(decreases_to!(v0 => items_val));
            let mut rest = items;
            let mut out: Vec<ConfigValue> = Vec::new();
            let ghost mut j: int = 0;
            assert(s0.skip(0) =~= s0);
            assert(s0.take(0) =~= Seq::<ConfigValue>::empty());
            while rest.len() > 0
                invariant
                    decreases_to!(v => items_val),
                    items_val@ == s0,
                    0 <= j <= s0.len(),
                    rest@ == s0.skip(j),
                    view_items(out@) == resolve_items(view_items(s0.take(j)), r@),
                decreases rest.len(),
            {
                let ghost rest0 = rest@;
                let x = rest.remove(0);
                proof {
                    assert(x == s0[j]);
                    assert(decreases_to!(items_val => items_val@));
                    assert(decreases_to!(s0 => s0[j]));
                    assert(decreases_to!(v => x));
                }
                let y = resolve_value(x, r);
                let ghost out0 = out@;
                out.push(y);
                proof {
                    assert(s0.take(j + 1).drop_last() =~= s0.take(j));
                    assert(view_items(s0.take(j + 1)).drop_last() =~= view_items(s0.take(j)));
                    assert(out@.drop_last() =~= out0);
                    assert(view_items(out@) == view_items(out0).push(view_value(y)));
                    assert(rest@ =~= s0.skip(j + 1));
                    j = j + 1;
                }
            }
            assert(s0.take(j) =~= s0);
            ConfigValue::Array(out)
        },
        ConfigValue::Table(entries) => {
            let ghost s0 = entries@;
            let ghost entries_val = entries;
            assert(decreases_to!(v0 => entries_val));
            let mut rest = entries;
            let mut out: Vec<(String, ConfigValue)> = Vec::new();
            let ghost mut j: int = 0;
            assert(s0.skip(0) =~= s0);
            assert(s0.take(0) =~= Seq::<(String, ConfigValue)>::empty());
            while rest.len() > 0
                invariant
                    decreases_to!(v => entries_val),
                    entries_val@ == s0,
                    0 <= j <= s0.len(),
                    rest@ == s0.skip(j),
                    view_entries(out@) == resolve_entries(view_entries(s0.take(j)), r@),
                decreases rest.len(),
            {
                let (k, x) = rest.remove(0);
                proof {
                    assert((k, x) == s0[j]);
                    assert(decreases_to!(entries_val => entries_val@));
                    assert(decreases_to!(s0 => s0[j]));
                    assert(decreases_to!(s0[j] => s0[j].1));
                    assert(decreases_to!(v => x));
                }
                let y = resolve_value(x, r);
                let ghost out0 = out@;
                out.push((k, y));
                proof {
                    assert(s0.take(j + 1).drop_last() =~= s0.take(j));
                    assert(view_entries(s0.take(j + 1)).drop_last() =~= view_entries(s0.take(j)));
                    assert(out@.drop_last() =~= out0);
                    assert(view_entries(out@) == view_entries(out0).push((k@, view_value(y))));
                    assert(rest@ =~= s0.skip(j + 1));
                    j = j + 1;
                }
            }
            assert(s0.take(j) =~= s0);
            ConfigValue::Table(out)
        },
        _ => v,
    }
}

/// `resolve_templates`: fills `{repo_name}` in place.
pub fn resolve_templates(value: &mut ConfigValue, repo_name: &str)
    ensures
        final(value)@ == resolve(old(value)@, repo_name@),
{
    let rc = chars_of(repo_name);
    let mut t = ConfigValue::Bool(false);
    std::mem::swap(&mut t, value);
    *value = resolve_value(t, &rc);
}

} // verus!

verus! {

/// The built-in configuration.
pub open spec fn default_config_spec() -> Cfg {
    Cfg::Table(
        seq![
            ("worktrees_dir"@, Cfg::Str(".worktrees"@)),
            ("setup_files"@, Cfg::Array(seq![Cfg::Str(".env"@)])),
            ("diff"@, Cfg::Table(seq![("tool"@, Cfg::Str("git"@))])),
        ],
    )
}

/// What `wt init` writes into a new project configuration file.
pub open spec fn default_config_updates_spec() -> Cfg {
    Cfg::Table(
        seq![
            ("worktrees_dir"@, Cfg::Str(".worktrees"@)),
            ("setup_files"@, Cfg::Array(seq![Cfg::Str(".env"@)])),
        ],
    )
}

fn str_value(s: &str) -> (r: ConfigValue)
    ensures
        r@ == Cfg::Str(s@),
{
    ConfigValue::Str(owned(s))
}

fn setup_files_default() -> (r: ConfigValue)
    ensures
        r@ == Cfg::Array(seq![Cfg::Str(".env"@)]),
{
    broadcast use group_config_views;

    let mut items: Vec<ConfigValue> = Vec::new();
    items.push(str_value(".env"));
    assert(view_items(items@) =~= seq![Cfg::Str(".env"@)]);
    ConfigValue::Array(items)
}

/// `default_config`.
pub fn default_config() -> (r: ConfigValue)
    ensures
        r@ == default_config_spec(),
{
    broadcast use group_config_views;

    let mut diff: Vec<(String, ConfigValue)> = Vec::new();
    diff.push((owned("tool"), str_value("git")));
    assert(view_entries(diff@) =~= seq![("tool"@, Cfg::Str("git"@))]);
    let mut root: Vec<(String, ConfigValue)> = Vec::new();
    root.push((owned("worktrees_dir"), str_value(".worktrees")));
    root.push((owned("setup_files"), setup_files_default()));
    root.push((owned("diff"), ConfigValue::Table(diff)));
    assert(view_entries(root@) =~= seq![
        ("worktrees_dir"@, Cfg::Str(".worktrees"@)),
        ("setup_files"@, Cfg::Array(seq![Cfg::Str(".env"@)])),
        ("diff"@, Cfg::Table(seq![("tool"@, Cfg::Str("git"@))])),
    ]);
    ConfigValue::Table(root)
}

/// `default_config_updates`.
pub fn default_config_updates() -> (r: ConfigValue)
    ensures
        r@ == default_config_updates_spec(),
{
    broadcast use group_config_views;

    let mut root: Vec<(String, ConfigValue)> = Vec::new();
    root.push((owned("worktrees_dir"), str_value(".worktrees")));
    root.push((owned("setup_files"), setup_files_default()));
    assert(view_entries(root@) =~= seq![
        ("worktrees_dir"@, Cfg::Str(".worktrees"@)),
        ("setup_files"@, Cfg::Array(seq![Cfg::Str(".env"@)])),
    ]);
    ConfigValue::Table(root)
}

/// `config_get_str`: the string under `key`, or `default`.
pub fn config_get_str(config: &ConfigValue, key: &str, default: &str) -> (r: String)
    ensures
        r@ == (match cfg_as_str(cfg_get(config@, key@)) {
            Some(s) => s,
            None => default@,
        }),
{
    match value_as_str(value_get(config, key)) {
        Some(s) => s.clone(),
        None => owned(default),
    }
}

/// The strings among array items (`filter_map(as_str)`).
pub open spec fn str_items(s: Seq<Cfg>) -> Seq<Seq<char>>
    decreases s.len(),
{
    if s.len() == 0 {
        seq![]
    } else {
        let rest = str_items(s.drop_last());
        match s.last() {
            Cfg::Str(x) => rest.push(x),
            _ => rest,
        }
    }
}

/// The configured setup files: an array's strings, or one non-empty string.
pub open spec fn setup_files_spec(c: Cfg) -> Seq<Seq<char>> {
    match cfg_get(c, "setup_files"@) {
        Some(Cfg::Array(items)) => str_items(items),
        Some(Cfg::Str(x)) => if x.len() > 0 {
            seq![x]
        } else {
            seq![]
        },
        _ => seq![],
    }
}

/// `config_setup_files`.
pub fn config_setup_files(config: &ConfigValue) -> (r: Vec<String>)
    ensures
        string_views(r@) == setup_files_spec(config@),
{
    broadcast use group_config_views;

    match value_get(config, "setup_files") {
        Some(ConfigValue::Array(items)) => {
            let mut out: Vec<String> = Vec::new();
            assert(items@.take(0) =~= Seq::<ConfigValue>::empty());
            assert(string_views(out@) =~= str_items(view_items(items@.take(0))));
            for i in 0..items.len()
                invariant
                    string_views(out@) == str_items(view_items(items@.take(i as int))),
            {
                assert(items@.take(i + 1).drop_last() =~= items@.take(i as int));
                let ghost vi = view_items(items@.take(i + 1));
                assert(vi == view_items(items@.take(i as int)).push(view_value(items@[i as int])));
                assert(vi.drop_last() =~= view_items(items@.take(i as int)));
                let ghost out0 = out@;
                match &items[i] {
                    ConfigValue::Str(x) => {
                        out.push(x.clone());
                        assert(string_views(out@) =~= string_views(out0).push(x@));
                    },
                    _ => {},
                }
            }
            assert(items@.take(items.len() as int) =~= items@);
            out
        },
        Some(ConfigValue::Str(x)) => {
            let mut out: Vec<String> = Vec::new();
            if x.as_str().unicode_len() > 0 {
                out.push(x.clone());
                assert(string_views(out@) =~= seq![x@]);
            } else {
                assert(string_views(out@) =~= Seq::<Seq<char>>::empty());
            }
            out
        },
        _ => {
            let out: Vec<String> = Vec::new();
            assert(string_views(out@) =~= Seq::<Seq<char>>::empty());
            out
        },
    }
}

/// The configured diff tool (`diff.tool`), `git` by default.
pub open spec fn diff_tool_spec(c: Cfg) -> Seq<char> {
    match cfg_get(c, "diff"@) {
        Some(d) => match cfg_as_str(cfg_get(d, "tool"@)) {
            Some(s) => s,
            None => "git"@,
        },
        None => "git"@,
    }
}

/// `config_diff_tool`.
pub fn config_diff_tool(config: &ConfigValue) -> (r: String)
    ensures
        r@ == diff_tool_spec(config@),
{
    match value_get(config, "diff") {
        Some(d) => match value_as_str(value_get(d, "tool")) {
            Some(s) => s.clone(),
            None => owned("git"),
        },
        None => owned("git"),
    }
}

/// `scalar_from_arg`: how a value given on the command line is stored.
pub open spec fn scalar_spec(v: Seq<char>) -> Cfg {
    if eq_ignore_ascii_case(v, "true"@) {
        Cfg::Bool(true)
    } else if eq_ignore_ascii_case(v, "false"@) {
        Cfg::Bool(false)
    } else if all_digits(v) {
        match parse_i64_spec(v) {
            Some(n) => Cfg::Int(n),
            None => Cfg::Str(v),
        }
    } else {
        Cfg::Str(v)
    }
}

/// `scalar_from_arg`.
pub fn scalar_from_arg(value: &str) -> (r: ConfigValue)
    ensures
        r@ == scalar_spec(value@),
{
    let vc = chars_of(value);
    if eq_ignore_ascii_case_chars(&vc, &chars_of("true")) {
        ConfigValue::Bool(true)
    } else if eq_ignore_ascii_case_chars(&vc, &chars_of("false")) {
        ConfigValue::Bool(false)
    } else {
        let mut all = true;
        for k in 0..vc.len()
            invariant
                all == (forall|m: int| 0 <= m < k ==> is_digit(#[trigger] vc@[m])),
        {
            if !(vc[k] >= '0' && vc[k] <= '9') {
                all = false;
            }
        }
        if all {
            match parse_i64(&vc) {
                Some(n) => ConfigValue::Int(n),
                None => ConfigValue::Str(owned(value)),
            }
        } else {
            assert(!all_digits(vc@));
            ConfigValue::Str(owned(value))
        }
    }
}

} // verus!

verus! {

/// `Map::insert` on table entries: replaces the value under `k`, or appends it.
pub open spec fn table_insert(e: Seq<(Seq<char>, Cfg)>, k: Seq<char>, v: Cfg) -> Seq<
    (Seq<char>, Cfg),
> {
    let i = find_key(e, k);
    if i >= 0 {
        e.update(i, (k, v))
    } else {
        e.push((k, v))
    }
}

pub proof fn lemma_table_insert_get(e: Seq<(Seq<char>, Cfg)>, k: Seq<char>, v: Cfg, k2: Seq<char>)
    ensures
        cfg_get(Cfg::Table(table_insert(e, k, v)), k2) == (if k2 == k {
            Some(v)
        } else {
            cfg_get(Cfg::Table(e), k2)
        }),
{
    lemma_find_key(e, k);
    lemma_find_key(e, k2);
    let e2 = table_insert(e, k, v);
    if k2 == k {
        if find_key(e, k) >= 0 {
            lemma_find_key_update(e, k, v);
        } else {
            lemma_find_key_push(e, k, v);
        }
    } else {
        let i2 = find_key(e, k2);
        assert forall|j: int| 0 <= j < e.len() implies #[trigger] e2[j].0 == e[j].0 by {}
        if i2 >= 0 {
            assert(e2[i2] == e[i2]);
            lemma_find_key_unique(e2, k2, i2);
        } else {
            lemma_find_key(e2, k2);
            if find_key(e2, k2) >= 0 {
                let x = find_key(e2, k2);
                if x < e.len() {
                    assert(e2[x].0 == e[x].0);
                }
            }
        }
    }
}

/// `Map::insert` on executable table entries.
pub fn table_insert_exec(e: &mut Vec<(String, ConfigValue)>, k: String, v: ConfigValue)
    ensures
        view_entries(final(e)@) == table_insert(view_entries(old(e)@), k@, v@),
{
    broadcast use group_config_views;

    let ghost e0 = e@;
    match table_find(e, k.as_str()) {
        Some(i) => {
            e.set(i, (k, v));
            assert(view_entries(e@) =~= view_entries(e0).update(i as int, (k@, v@)));
        },
        None => {
            e.push((k, v));
            assert(view_entries(e@) =~= view_entries(e0).push((k@, v@)));
        },
    }
}

/// The path recorded in a metadata item.
pub open spec fn item_path(item: Cfg) -> Option<Seq<char>> {
    cfg_as_str(cfg_get(item, "path"@))
}

/// Index of the first metadata item for `target`, or -1.
pub open spec fn find_item(items: Seq<Cfg>, target: Seq<char>) -> int
    decreases items.len(),
{
    if items.len() == 0 {
        -1
    } else if item_path(items[0]) == Some(target) {
        0
    } else {
        let r = find_item(items.drop_first(), target);
        if r < 0 {
            -1
        } else {
            r + 1
        }
    }
}

pub proof fn lemma_find_item(items: Seq<Cfg>, target: Seq<char>)
    ensures
        -1 <= find_item(items, target) < items.len(),
        find_item(items, target) >= 0 ==> item_path(items[find_item(items, target)]) == Some(
            target,
        ),
        forall|j: int|
            0 <= j < items.len() && (find_item(items, target) < 0 || j < find_item(items, target))
                ==> item_path(#[trigger] items[j]) != Some(target),
    decreases items.len(),
{
    if items.len() > 0 {
        lemma_find_item(items.drop_first(), target);
        assert forall|j: int|
            0 <= j < items.len() && (find_item(items, target) < 0 || j < find_item(items, target))
                implies item_path(#[trigger] items[j]) != Some(target) by {
            if j > 0 {
                assert(items.drop_first()[j - 1] == items[j]);
            }
        }
    }
}

pub proof fn lemma_find_item_unique(items: Seq<Cfg>, target: Seq<char>, i: int)
    requires
        -1 <= i <= items.len(),
        i < items.len() ==> item_path(items[i]) == Some(target),
        forall|j: int| 0 <= j < i ==> item_path(#[trigger] items[j]) != Some(target),
        i == items.len() ==> forall|j: int|
            0 <= j < items.len() ==> item_path(#[trigger] items[j]) != Some(target),
        i >= 0,
    ensures
        find_item(items, target) == (if i == items.len() {
            -1
        } else {
            i
        }),
{
    lemma_find_item(items, target);
}

/// The worktree records of a metadata value.
pub open spec fn worktree_items(m: Cfg) -> Seq<Cfg> {
    match cfg_get(m, "worktrees"@) {
        Some(Cfg::Array(items)) => items,
        _ => seq![],
    }
}

/// The creation time recorded for `target`, as text.
pub open spec fn recorded_created(m: Cfg, target: Seq<char>) -> Option<Seq<char>> {
    let items = worktree_items(m);
    let i = find_item(items, target);
    if i < 0 {
        None
    } else {
        cfg_as_str(cfg_get(items[i], "created_at"@))
    }
}

/// Metadata whose shape the record operations rely on.
pub open spec fn metadata_ok(m: Cfg) -> bool {
    &&& m is Table
    &&& match cfg_get(m, "worktrees"@) {
        None => true,
        Some(Cfg::Array(_)) => true,
        _ => false,
    }
}

/// The metadata with its worktree records replaced.
pub open spec fn with_items(m: Cfg, items: Seq<Cfg>) -> Cfg {
    match m {
        Cfg::Table(e) => Cfg::Table(table_insert(e, "worktrees"@, Cfg::Array(items))),
        _ => m,
    }
}

/// A new worktree record.
pub open spec fn new_item(target: Seq<char>, created: Seq<char>) -> Cfg {
    Cfg::Table(seq![("path"@, Cfg::Str(target)), ("created_at"@, Cfg::Str(created))])
}

/// `record_worktree_created` on the metadata: the new metadata and whether it must be saved.
pub open spec fn record_spec(m: Cfg, target: Seq<char>, created: Seq<char>) -> (Cfg, bool) {
    let items = worktree_items(m);
    let i = find_item(items, target);
    if i >= 0 {
        if cfg_get(items[i], "created_at"@) is None {
            match items[i] {
                Cfg::Table(ie) => (
                    with_items(
                        m,
                        items.update(i, Cfg::Table(table_insert(ie, "created_at"@, Cfg::Str(created)))),
                    ),
                    true,
                ),
                _ => (with_items(m, items), false),
            }
        } else {
            (with_items(m, items), false)
        }
    } else {
        (with_items(m, items.push(new_item(target, created))), true)
    }
}

/// Worktree metadata after reading its file: the parsed file if it holds a `worktrees`
/// array, otherwise an empty record list.
pub open spec fn metadata_or_default_spec(parsed: Option<Cfg>) -> Cfg {
    match parsed {
        Some(d) => match cfg_get(d, "worktrees"@) {
            Some(Cfg::Array(_)) => d,
            _ => Cfg::Table(seq![("worktrees"@, Cfg::Array(seq![]))]),
        },
        None => Cfg::Table(seq![("worktrees"@, Cfg::Array(seq![]))]),
    }
}

pub fn metadata_or_default(parsed: Option<ConfigValue>) -> (r: ConfigValue)
    ensures
        r@ == metadata_or_default_spec(match parsed {
            Some(d) => Some(d@),
            None => None,
        }),
        metadata_ok(r@),
{
    broadcast use group_config_views;

    match parsed {
        Some(d) => {
            let keep = match value_get(&d, "worktrees") {
                Some(ConfigValue::Array(_)) => true,
                _ => false,
            };
            if keep {
                return d;
            }
        },
        None => {},
    }
    let mut e: Vec<(String, ConfigValue)> = Vec::new();
    e.push((owned("worktrees"), ConfigValue::Array(Vec::new())));
    assert(view_items(Seq::<ConfigValue>::empty()) =~= Seq::<Cfg>::empty());
    assert(view_entries(e@) =~= seq![("worktrees"@, Cfg::Array(seq![]))]);
    proof {
        lemma_find_key_unique(view_entries(e@), "worktrees"@, 0);
    }
    ConfigValue::Table(e)
}

/// The path recorded in an executable metadata item.
fn item_path_exec(item: &ConfigValue) -> (r: Option<&String>)
    ensures
        match r {
            Some(s) => item_path(item@) == Some(s@),
            None => item_path(item@) is None,
        },
{
    value_as_str(value_get(item, "path"))
}

/// Index of the first record for `target`.
fn find_item_exec(items: &Vec<ConfigValue>, target: &str) -> (r: Option<usize>)
    ensures
        match r {
            Some(i) => find_item(view_items(items@), target@) == i as int && i < items.len(),
            None => find_item(view_items(items@), target@) < 0,
        },
{
    broadcast use group_config_views;

    let ghost vi = view_items(items@);
    proof {
        lemma_view_items(items@);
    }
    for i in 0..items.len()
        invariant
            vi == view_items(items@),
            vi.len() == items.len(),
            forall|j: int| 0 <= j < vi.len() ==> #[trigger] vi[j] == items@[j]@,
            forall|j: int| 0 <= j < i ==> item_path(#[trigger] vi[j]) != Some(target@),
    {
        match item_path_exec(&items[i]) {
            Some(p) => {
                if str_eq(p.as_str(), target) {
                    proof {
                        lemma_find_item_unique(vi, target@, i as int);
                    }
                    return Some(i);
                }
            },
            None => {},
        }
    }
    proof {
        lemma_find_item_unique(vi, target@, vi.len() as int);
    }
    None
}

/// Takes the worktree records out of a metadata table, leaving its other entries.
fn take_items(e: &mut Vec<(String, ConfigValue)>) -> (r: (Option<usize>, Vec<ConfigValue>))
    requires
        metadata_ok(Cfg::Table(view_entries(old(e)@))),
    ensures
        r.1@.len() >= 0,
        view_items(r.1@) == worktree_items(Cfg::Table(view_entries(old(e)@))),
        match r.0 {
            Some(i) => i < old(e)@.len() && find_key(view_entries(old(e)@), "worktrees"@) == i
                && final(e)@ == old(e)@.remove(i as int) && old(e)@[i as int].0@ == "worktrees"@,
            None => find_key(view_entries(old(e)@), "worktrees"@) < 0 && final(e)@ == old(e)@,
        },
{
    broadcast use group_config_views;

    match table_find(e, "worktrees") {
        Some(i) => {
            proof {
                lemma_find_key(view_entries(e@), "worktrees"@);
            }
            let (_k, v) = e.remove(i);
            match v {
                ConfigValue::Array(items) => (Some(i), items),
                _ => {
                    assert(false);
                    (Some(i), Vec::new())
                },
            }
        },
        None => {
            assert(view_items(Seq::<ConfigValue>::empty()) =~= Seq::<Cfg>::empty());
            (None, Vec::new())
        },
    }
}

/// Puts worktree records back where `take_items` took them from.
fn put_items(e: &mut Vec<(String, ConfigValue)>, at: Option<usize>, items: Vec<ConfigValue>, Ghost(orig): Ghost<Seq<(String, ConfigValue)>>)
    requires
        match at {
            Some(i) => i < orig.len() && find_key(view_entries(orig), "worktrees"@) == i
                && old(e)@ == orig.remove(i as int) && orig[i as int].0@ == "worktrees"@,
            None => find_key(view_entries(orig), "worktrees"@) < 0 && old(e)@ == orig,
        },
    ensures
        Cfg::Table(view_entries(final(e)@)) == with_items(Cfg::Table(view_entries(orig)), view_items(items@)),
{
    broadcast use group_config_views;

    let ghost vi = view_items(items@);
    match at {
        Some(i) => {
            let ghost e0 = e@;
            e.insert(i, (owned("worktrees"), ConfigValue::Array(items)));
            assert(view_entries(e@) =~= view_entries(orig).update(i as int, ("worktrees"@, Cfg::Array(vi))));
        },
        None => {
            e.push((owned("worktrees"), ConfigValue::Array(items)));
            assert(view_entries(e@) =~= view_entries(orig).push(("worktrees"@, Cfg::Array(vi))));
        },
    }
}

} // verus!

verus! {

fn new_item_exec(target: &str, created: &str) -> (r: ConfigValue)
    ensures
        r@ == new_item(target@, created@),
{
    broadcast use group_config_views;

    let mut e: Vec<(String, ConfigValue)> = Vec::new();
    e.push((owned("path"), ConfigValue::Str(owned(target))));
    e.push((owned("created_at"), ConfigValue::Str(owned(created))));
    assert(view_entries(e@) =~= seq![("path"@, Cfg::Str(target@)), ("created_at"@, Cfg::Str(created@))]);
    ConfigValue::Table(e)
}

/// `record_worktree_created` on loaded metadata: records `created` as the creation time
/// of `target` unless one is recorded already; returns whether the metadata must be saved.
pub fn record_worktree_created(metadata: &mut ConfigValue, target: &str, created: &str) -> (save:
    bool)
    requires
        metadata_ok(old(metadata)@),
    ensures
        (final(metadata)@, save) == record_spec(old(metadata)@, target@, created@),
{
    broadcast use group_config_views;

    let mut m = ConfigValue::Bool(false);
    std::mem::swap(&mut m, metadata);
    match m {
        ConfigValue::Table(mut e) => {
            let ghost orig = e@;
            let (at, mut items) = take_items(&mut e);
            let ghost vi = view_items(items@);
            let save;
            match find_item_exec(&items, target) {
                Some(i) => {
                    proof {
                        lemma_find_item(vi, target@);
                    }
                    if value_get(&items[i], "created_at").is_none() {
                        let ghost items0 = items@;
                        let item = items.remove(i);
                        match item {
                            ConfigValue::Table(mut ie) => {
                                let ghost ie0 = ie@;
                                table_insert_exec(
                                    &mut ie,
                                    owned("created_at"),
                                    ConfigValue::Str(owned(created)),
                                );
                                let ghost newv = Cfg::Table(
                                    table_insert(view_entries(ie0), "created_at"@, Cfg::Str(created@)),
                                );
                                items.insert(i, ConfigValue::Table(ie));
                                assert(items@ == items0.update(i as int, items@[i as int]));
                                assert(view_items(items@) =~= vi.update(i as int, newv));
                                save = true;
                            },
                            other => {
                                items.insert(i, other);
                                assert(items@ =~= items0);
                                save = false;
                            },
                        }
                    } else {
                        save = false;
                    }
                },
                None => {
                    let ghost items0 = items@;
                    items.push(new_item_exec(target, created));
                    assert(items@.drop_last() =~= items0);
                    assert(view_items(items@) == vi.push(new_item(target@, created@)));
                    save = true;
                },
            }
            put_items(&mut e, at, items, Ghost(orig));
            *metadata = ConfigValue::Table(e);
            save
        },
        _ => {
            assert(false);
            *metadata = m;
            false
        },
    }
}

/// `get_recorded_worktree_created` before parsing: the recorded creation text of `target`.
pub fn get_recorded_worktree_created(metadata: &ConfigValue, target: &str) -> (r: Option<String>)
    ensures
        match r {
            Some(s) => recorded_created(metadata@, target@) == Some(s@),
            None => recorded_created(metadata@, target@) is None,
        },
{
    broadcast use group_config_views;

    match value_get(metadata, "worktrees") {
        Some(ConfigValue::Array(items)) => match find_item_exec(items, target) {
            Some(i) => {
                proof {
                    lemma_view_items(items@);
                }
                match value_as_str(value_get(&items[i], "created_at")) {
                    Some(s) => Some(s.clone()),
                    None => None,
                }
            },
            None => None,
        },
        _ => None,
    }
}

/// The records that are not for `target`.
pub open spec fn keep_others(items: Seq<Cfg>, target: Seq<char>) -> Seq<Cfg>
    decreases items.len(),
{
    if items.len() == 0 {
        seq![]
    } else if item_path(items.last()) == Some(target) {
        keep_others(items.drop_last(), target)
    } else {
        keep_others(items.drop_last(), target).push(items.last())
    }
}

/// `remove_worktree_metadata` on loaded metadata: the new metadata and whether it changed.
pub open spec fn remove_spec(m: Cfg, target: Seq<char>) -> (Cfg, bool) {
    match cfg_get(m, "worktrees"@) {
        Some(Cfg::Array(items)) => {
            let kept = keep_others(items, target);
            (with_items(m, kept), kept.len() != items.len())
        },
        _ => (m, false),
    }
}

/// `remove_worktree_metadata` on loaded metadata: drops the records of `target`;
/// returns whether the metadata must be saved.
pub fn remove_worktree_metadata(metadata: &mut ConfigValue, target: &str) -> (save: bool)
    ensures
        (final(metadata)@, save) == remove_spec(old(metadata)@, target@),
{
    broadcast use group_config_views;

    let is_array = match value_get(metadata, "worktrees") {
        Some(ConfigValue::Array(_)) => true,
        _ => false,
    };
    if !is_array {
        return false;
    }
    let mut m = ConfigValue::Bool(false);
    std::mem::swap(&mut m, metadata);
    match m {
        ConfigValue::Table(mut e) => {
            let ghost orig = e@;
            let (at, items) = take_items(&mut e);
            let ghost vi = view_items(items@);
            let n = items.len();
            let mut rest = items;
            let mut kept: Vec<ConfigValue> = Vec::new();
            let ghost mut j: int = 0;
            assert(vi.take(0) =~= Seq::<Cfg>::empty());
            while rest.len() > 0
                invariant
                    0 <= j <= vi.len(),
                    vi.len() == n,
                    view_items(rest@) == vi.skip(j),
                    view_items(kept@) == keep_others(vi.take(j), target@),
                decreases rest.len(),
            {
                let ghost rest0 = rest@;
                let x = rest.remove(0);
                proof {
                    lemma_view_items(rest0);
                    lemma_view_items(rest@);
                    assert(view_items(rest0)[0] == view_value(rest0[0]));
                    assert(vi.skip(j)[0] == vi[j]);
                    assert(x@ == vi[j]);
                    assert forall|k: int| 0 <= k < view_items(rest@).len() implies #[trigger] view_items(rest@)[k] == vi.skip(j + 1)[k] by {
                        assert(rest@[k] == rest0[k + 1]);
                        assert(view_items(rest0)[k + 1] == vi.skip(j)[k + 1]);
                    }
                    assert(view_items(rest@) =~= vi.skip(j + 1));
                    assert(vi.take(j + 1).drop_last() =~= vi.take(j));
                    assert(vi.take(j + 1).last() == vi[j]);
                }
                let matches = match item_path_exec(&x) {
                    Some(p) => str_eq(p.as_str(), target),
                    None => false,
                };
                if !matches {
                    let ghost kept0 = kept@;
                    kept.push(x);
                    assert(kept@.drop_last() =~= kept0);
                }
                proof {
                    j = j + 1;
                }
            }
            proof {
                lemma_view_items(rest@);
            }
            assert(vi.take(j) =~= vi);
            let changed = kept.len() != n;
            proof {
                lemma_keep_others_len(vi, target@);
                lemma_view_items(kept@);
            }
            put_items(&mut e, at, kept, Ghost(orig));
            *metadata = ConfigValue::Table(e);
            changed
        },
        _ => {
            *metadata = m;
            false
        },
    }
}

proof fn lemma_keep_others_len(items: Seq<Cfg>, target: Seq<char>)
    ensures
        keep_others(items, target).len() <= items.len(),
        forall|j: int|
            0 <= j < keep_others(items, target).len() ==> item_path(
                #[trigger] keep_others(items, target)[j],
            ) != Some(target),
    decreases items.len(),
{
    if items.len() > 0 {
        lemma_keep_others_len(items.drop_last(), target);
    }
}

} // verus!

verus! {

proof fn lemma_with_items(m: Cfg, items: Seq<Cfg>)
    requires
        m is Table,
    ensures
        worktree_items(with_items(m, items)) == items,
{
    match m {
        Cfg::Table(e) => {
            lemma_table_insert_get(e, "worktrees"@, Cfg::Array(items), "worktrees"@);
        },
        _ => {},
    }
}

proof fn lemma_path_not_created_at()
    ensures
        "path"@ != "created_at"@,
{
    reveal_strlit("path");
    reveal_strlit("created_at");
    assert("path"@.len() != "created_at"@.len());
}

/// Law: after `record_worktree_created`, the recorded creation time of the worktree is the
/// one just given, unless the worktree already had a creation time, which is then kept.
pub proof fn lemma_record_then_lookup(m: Cfg, target: Seq<char>, created: Seq<char>)
    requires
        metadata_ok(m),
    ensures
        ({
            let items = worktree_items(m);
            let i = find_item(items, target);
            recorded_created(record_spec(m, target, created).0, target) == (if i >= 0 && !(cfg_get(
                items[i],
                "created_at"@,
            ) is None) {
                recorded_created(m, target)
            } else {
                Some(created)
            })
        }),
{
    let items = worktree_items(m);
    let i = find_item(items, target);
    lemma_find_item(items, target);
    lemma_path_not_created_at();
    if i >= 0 {
        if cfg_get(items[i], "created_at"@) is None {
            match items[i] {
                Cfg::Table(ie) => {
                    let newv = Cfg::Table(table_insert(ie, "created_at"@, Cfg::Str(created)));
                    let x = items.update(i, newv);
                    lemma_with_items(m, x);
                    lemma_table_insert_get(ie, "created_at"@, Cfg::Str(created), "path"@);
                    lemma_table_insert_get(ie, "created_at"@, Cfg::Str(created), "created_at"@);
                    assert forall|j: int| 0 <= j < i implies item_path(#[trigger] x[j]) != Some(
                        target,
                    ) by {
                        assert(x[j] == items[j]);
                    }
                    lemma_find_item_unique(x, target, i);
                },
                _ => {
                    assert(item_path(items[i]) is None);
                },
            }
        } else {
            lemma_with_items(m, items);
        }
    } else {
        let x = items.push(new_item(target, created));
        lemma_with_items(m, x);
        let ne = seq![("path"@, Cfg::Str(target)), ("created_at"@, Cfg::Str(created))];
        lemma_find_key_unique(ne, "path"@, 0);
        lemma_find_key_unique(ne, "created_at"@, 1);
        assert forall|j: int| 0 <= j < items.len() implies item_path(#[trigger] x[j]) != Some(
            target,
        ) by {
            assert(x[j] == items[j]);
        }
        lemma_find_item_unique(x, target, items.len() as int);
    }
}

/// Law: after `remove_worktree_metadata`, no creation time is recorded for the worktree.
pub proof fn lemma_remove_then_lookup(m: Cfg, target: Seq<char>)
    ensures
        recorded_created(remove_spec(m, target).0, target) is None,
{
    match cfg_get(m, "worktrees"@) {
        Some(Cfg::Array(items)) => {
            let kept = keep_others(items, target);
            assert(m is Table);
            lemma_with_items(m, kept);
            lemma_keep_others_len(items, target);
            lemma_find_item_unique(kept, target, kept.len() as int);
        },
        _ => {},
    }
}


proof fn lemma_find_item_push(p: Seq<Cfg>, x: Cfg, t: Seq<char>)
    ensures
        find_item(p.push(x), t) == (if find_item(p, t) >= 0 {
            find_item(p, t)
        } else if item_path(x) == Some(t) {
            p.len() as int
        } else {
            -1
        }),
{
    let q = p.push(x);
    let i = find_item(p, t);
    lemma_find_item(p, t);
    assert forall|j: int| 0 <= j < p.len() implies #[trigger] q[j] == p[j] by {}
    if i >= 0 {
        lemma_find_item_unique(q, t, i);
    } else if item_path(x) == Some(t) {
        lemma_find_item_unique(q, t, p.len() as int);
    } else {
        lemma_find_item_unique(q, t, q.len() as int);
    }
}

/// Dropping the records of `target` keeps the first record of every other worktree.
proof fn lemma_keep_others_find(items: Seq<Cfg>, target: Seq<char>, other: Seq<char>)
    requires
        other != target,
    ensures
        ({
            let kept = keep_others(items, target);
            let j = find_item(items, other);
            let k = find_item(kept, other);
            &&& (j < 0 <==> k < 0)
            &&& j >= 0 ==> 0 <= k < kept.len() && kept[k] == items[j]
        }),
    decreases items.len(),
{
    lemma_find_item(items, other);
    lemma_find_item(keep_others(items, target), other);
    if items.len() > 0 {
        let p = items.drop_last();
        let x = items.last();
        assert(items == p.push(x));
        lemma_keep_others_find(p, target, other);
        lemma_find_item_push(p, x, other);
        lemma_find_item(p, other);
        let kp = keep_others(p, target);
        lemma_find_item(kp, other);
        if item_path(x) != Some(target) {
            assert(keep_others(items, target) == kp.push(x));
            lemma_find_item_push(kp, x, other);
            if find_item(kp, other) >= 0 {
                assert(kp.push(x)[find_item(kp, other)] == kp[find_item(kp, other)]);
            }
            if find_item(p, other) >= 0 {
                assert(items[find_item(p, other)] == p[find_item(p, other)]);
            }
        } else {
            assert(keep_others(items, target) == kp);
            if find_item(p, other) >= 0 {
                assert(items[find_item(p, other)] == p[find_item(p, other)]);
            }
        }
    }
}

/// Law: recording the creation time of one worktree leaves what is recorded for every
/// other worktree unchanged.
pub proof fn lemma_record_keeps_others(
    m: Cfg,
    target: Seq<char>,
    created: Seq<char>,
    other: Seq<char>,
)
    requires
        metadata_ok(m),
        other != target,
    ensures
        recorded_created(record_spec(m, target, created).0, other) == recorded_created(m, other),
{
    let items = worktree_items(m);
    let i = find_item(items, target);
    let j = find_item(items, other);
    lemma_find_item(items, target);
    lemma_find_item(items, other);
    lemma_path_not_created_at();
    if i >= 0 {
        if cfg_get(items[i], "created_at"@) is None {
            match items[i] {
                Cfg::Table(ie) => {
                    let newv = Cfg::Table(table_insert(ie, "created_at"@, Cfg::Str(created)));
                    let x = items.update(i, newv);
                    lemma_with_items(m, x);
                    lemma_table_insert_get(ie, "created_at"@, Cfg::Str(created), "path"@);
                    assert(item_path(x[i]) == Some(target));
                    if j >= 0 {
                        assert forall|k: int| 0 <= k < j implies item_path(#[trigger] x[k])
                            != Some(other) by {
                            if k != i {
                                assert(x[k] == items[k]);
                            }
                        }
                        assert(x[j] == items[j]);
                        lemma_find_item_unique(x, other, j);
                    } else {
                        assert forall|k: int| 0 <= k < x.len() implies item_path(#[trigger] x[k])
                            != Some(other) by {
                            if k != i {
                                assert(x[k] == items[k]);
                            }
                        }
                        lemma_find_item_unique(x, other, x.len() as int);
                    }
                },
                _ => {
                    assert(item_path(items[i]) is None);
                },
            }
        } else {
            lemma_with_items(m, items);
        }
    } else {
        let x = items.push(new_item(target, created));
        lemma_with_items(m, x);
        let ne = seq![("path"@, Cfg::Str(target)), ("created_at"@, Cfg::Str(created))];
        lemma_find_key_unique(ne, "path"@, 0);
        lemma_find_item_push(items, new_item(target, created), other);
        if j >= 0 {
            assert(x[j] == items[j]);
        }
    }
}

/// Law: removing the records of one worktree leaves what is recorded for every other
/// worktree unchanged.
pub proof fn lemma_remove_keeps_others(m: Cfg, target: Seq<char>, other: Seq<char>)
    requires
        other != target,
    ensures
        recorded_created(remove_spec(m, target).0, other) == recorded_created(m, other),
{
    match cfg_get(m, "worktrees"@) {
        Some(Cfg::Array(items)) => {
            let kept = keep_others(items, target);
            assert(m is Table);
            lemma_with_items(m, kept);
            lemma_keep_others_find(items, target, other);
        },
        _ => {},
    }
}


/// The worktree metadata read from its file's text (nothing when there is no file):
/// the document when it holds a `worktrees` array, otherwise an empty record list.
pub fn metadata_from_text(text: Option<&str>) -> (r: ConfigValue)
    ensures
        r@ == metadata_or_default_spec(match text {
            Some(t) => crate::formats::toml_value(t@),
            None => None,
        }),
        metadata_ok(r@),
{
    let parsed = match text {
        Some(t) => crate::formats::parse_toml(t),
        None => None,
    };
    metadata_or_default(parsed)
}

/// The configuration a file's text holds: the document, or an empty table when there is no
/// file or it does not read.
pub open spec fn file_config_spec(text: Option<Seq<char>>) -> Cfg {
    match text {
        Some(t) => match crate::formats::toml_value(t) {
            Some(v) => v,
            None => Cfg::Table(seq![]),
        },
        None => Cfg::Table(seq![]),
    }
}

pub open spec fn str_opt_view(text: Option<&str>) -> Option<Seq<char>> {
    match text {
        Some(t) => Some(t@),
        None => None,
    }
}

/// The configuration a file's text holds (an empty table without a file, or when the
/// text does not read as TOML).
pub fn file_config(text: Option<&str>) -> (r: ConfigValue)
    ensures
        r@ == file_config_spec(str_opt_view(text)),
{
    let parsed = match text {
        Some(t) => crate::formats::parse_toml(t),
        None => None,
    };
    match parsed {
        Some(v) => v,
        None => {
            let e: Vec<(String, ConfigValue)> = Vec::new();
            assert(view_entries(e@) =~= seq![]);
            ConfigValue::Table(e)
        },
    }
}

/// The new text of a configuration file: what it held, with `updates` merged in, written
/// as a TOML document.
pub fn config_file_update(text: Option<&str>, updates: ConfigValue) -> (r: String)
    ensures
        r@ == crate::formats::toml_render(merge(file_config_spec(str_opt_view(text)), updates@)),
{
    let mut current = file_config(text);
    deep_merge(&mut current, updates);
    crate::formats::render_toml(&current)
}


/// A copy of a configuration value.
pub fn copy_value(v: &ConfigValue) -> (r: ConfigValue)
    ensures
        r@ == v@,
    decreases v,
{
    broadcast use group_config_views;

    match v {
        ConfigValue::Str(s) => ConfigValue::Str(owned(s.as_str())),
        ConfigValue::Int(n) => ConfigValue::Int(*n),
        ConfigValue::Bool(b) => ConfigValue::Bool(*b),
        ConfigValue::Other(s) => ConfigValue::Other(owned(s.as_str())),
        ConfigValue::Array(items) => {
            let mut out: Vec<ConfigValue> = Vec::new();
            for i in 0..items.len()
                invariant
                    *v == ConfigValue::Array(*items),
                    out@.len() == i,
                    forall|k: int| 0 <= k < i ==> (#[trigger] out@[k])@ == items@[k]@,
            {
                proof {
                    assert(decreases_to!(*v => v->Array_0));
                    assert(decreases_to!(*items => items@));
                    assert(decreases_to!(items@ => items@[i as int]));
                }
                out.push(copy_value(&items[i]));
            }
            assert(view_items(out@) =~= view_items(items@));
            ConfigValue::Array(out)
        },
        ConfigValue::Table(es) => {
            let mut out: Vec<(String, ConfigValue)> = Vec::new();
            for i in 0..es.len()
                invariant
                    *v == ConfigValue::Table(*es),
                    out@.len() == i,
                    forall|k: int|
                        0 <= k < i ==> (#[trigger] out@[k]).0@ == es@[k].0@ && out@[k].1@
                            == es@[k].1@,
            {
                proof {
                    assert(decreases_to!(*v => v->Table_0));
                    assert(decreases_to!(*es => es@));
                    assert(decreases_to!(es@ => es@[i as int]));
                    assert(decreases_to!(es@[i as int] => es@[i as int].1));
                }
                let c = copy_value(&es[i].1);
                out.push((owned(es[i].0.as_str()), c));
            }
            proof {
                lemma_view_entries(out@);
                lemma_view_entries(es@);
            }
            assert(view_entries(out@) =~= view_entries(es@));
            ConfigValue::Table(out)
        },
    }
}


/// The string of a string value.
pub open spec fn str_of(v: Cfg) -> Option<Seq<char>> {
    match v {
        Cfg::Str(x) => Some(x),
        _ => None,
    }
}

proof fn lemma_str_items_filter_map(items: Seq<Cfg>)
    ensures
        str_items(items) == items.filter_map(|v: Cfg| str_of(v)),
    decreases items.len(),
{
    if items.len() > 0 {
        lemma_str_items_filter_map(items.drop_last());
        let rest = items.drop_last().filter_map(|v: Cfg| str_of(v));
        match items.last() {
            Cfg::Str(x) => {
                assert(rest.push(x) =~= rest + seq![x]);
            },
            _ => {},
        }
    }
}

/// Law: when `setup_files` is an array, the setup files are exactly its strings, every one
/// of them, in order (anything else in the array is passed over); when it is one non-empty
/// string, that file alone.
pub proof fn lemma_setup_files_every_string(c: Cfg)
    ensures
        cfg_get(c, "setup_files"@) matches Some(Cfg::Array(items)) ==> setup_files_spec(c)
            == items.filter_map(|v: Cfg| str_of(v)),
        cfg_get(c, "setup_files"@) matches Some(Cfg::Str(x)) ==> setup_files_spec(c) == (if x.len()
            > 0 {
            seq![x]
        } else {
            seq![]
        }),
{
    match cfg_get(c, "setup_files"@) {
        Some(Cfg::Array(items)) => {
            lemma_str_items_filter_map(items);
        },
        _ => {},
    }
}

} // verus!
