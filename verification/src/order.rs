use vstd::prelude::*;

verus! {

/// Lexicographic order on sequences of integers, a proper prefix first.
pub open spec fn lex_lt(a: Seq<i64>, b: Seq<i64>) -> bool
    decreases a.len(),
{
    if a.len() == 0 {
        b.len() > 0
    } else if b.len() == 0 {
        false
    } else if a[0] != b[0] {
        a[0] < b[0]
    } else {
        lex_lt(a.drop_first(), b.drop_first())
    }
}

/// `a` comes no later than `b`.
pub open spec fn lex_le(a: Seq<i64>, b: Seq<i64>) -> bool {
    !lex_lt(b, a)
}

pub proof fn lemma_lex_irreflexive(a: Seq<i64>)
    ensures
        !lex_lt(a, a),
    decreases a.len(),
{
    if a.len() > 0 {
        lemma_lex_irreflexive(a.drop_first());
    }
}

pub proof fn lemma_lex_transitive(a: Seq<i64>, b: Seq<i64>, c: Seq<i64>)
    requires
        lex_lt(a, b),
        lex_lt(b, c),
    ensures
        lex_lt(a, c),
    decreases a.len(),
{
    if a.len() > 0 && b.len() > 0 && c.len() > 0 && a[0] == b[0] && b[0] == c[0] {
        lemma_lex_transitive(a.drop_first(), b.drop_first(), c.drop_first());
    }
}

pub proof fn lemma_lex_total(a: Seq<i64>, b: Seq<i64>)
    ensures
        a == b || lex_lt(a, b) || lex_lt(b, a),
    decreases a.len(),
{
    if a.len() > 0 && b.len() > 0 && a[0] == b[0] {
        lemma_lex_total(a.drop_first(), b.drop_first());
        if a.drop_first() == b.drop_first() {
            assert(a =~= seq![a[0]] + a.drop_first());
            assert(b =~= seq![b[0]] + b.drop_first());
        }
    } else if a.len() == 0 && b.len() == 0 {
        assert(a =~= b);
    }
}

/// `lex_le` is transitive.
pub proof fn lemma_lex_le_transitive(a: Seq<i64>, b: Seq<i64>, c: Seq<i64>)
    requires
        lex_le(a, b),
        lex_le(b, c),
    ensures
        lex_le(a, c),
{
    if lex_lt(c, a) {
        lemma_lex_total(a, b);
        if a == b {
        } else if lex_lt(a, b) {
            lemma_lex_transitive(c, a, b);
        }
    }
}

/// The order of `<` between the two, compared element by element.
pub fn lex_less(a: &Vec<i64>, b: &Vec<i64>) -> (r: bool)
    ensures
        r == lex_lt(a@, b@),
{
    let mut i: usize = 0;
    assert(a@.skip(0) =~= a@);
    assert(b@.skip(0) =~= b@);
    while i < a.len() && i < b.len()
        invariant
            i <= a.len(),
            i <= b.len(),
            lex_lt(a@, b@) == lex_lt(a@.skip(i as int), b@.skip(i as int)),
        decreases a.len() - i,
    {
        let x = a[i];
        let y = b[i];
        assert(a@.skip(i as int)[0] == x);
        assert(b@.skip(i as int)[0] == y);
        if x != y {
            return x < y;
        }
        assert(a@.skip(i as int).drop_first() =~= a@.skip(i + 1));
        assert(b@.skip(i as int).drop_first() =~= b@.skip(i + 1));
        i = i + 1;
    }
    i < b.len()
}

/// `p` arranges the indices `0..n` in some order, each once.
pub open spec fn is_permutation(p: Seq<int>, n: int) -> bool {
    &&& p.len() == n
    &&& forall|k: int| 0 <= k < n ==> 0 <= #[trigger] p[k] < n
    &&& forall|a: int, b: int| 0 <= a < b < n ==> #[trigger] p[a] != #[trigger] p[b]
}

/// `p` is the stable sorting order of `keys`: the keys taken in the order of `p` never
/// decrease, and equal keys keep their original order.
pub open spec fn is_stable_order(keys: Seq<Seq<i64>>, p: Seq<int>) -> bool {
    &&& is_permutation(p, keys.len() as int)
    &&& forall|a: int, b: int|
        0 <= a < b < p.len() ==> lex_le(keys[#[trigger] p[a]], keys[#[trigger] p[b]])
    &&& forall|a: int, b: int|
        0 <= a < b < p.len() && keys[#[trigger] p[a]] == keys[#[trigger] p[b]] ==> p[a] < p[b]
}

/// The items of `s` in the order `p`.
pub open spec fn permuted<T>(s: Seq<T>, p: Seq<int>) -> Seq<T> {
    Seq::new(p.len(), |i: int| s[p[i]])
}

/// Sorts `items` by `keys` (one key per item), stably, with insertion sort; `keys` ends up
/// sorted alongside. Returns the order taken, as the original indices.
pub fn stable_sort_by_keys<T>(items: &mut Vec<T>, keys: &mut Vec<Vec<i64>>) -> (order: Ghost<
    Seq<int>,
>)
    requires
        old(items).len() == old(keys).len(),
    ensures
        is_stable_order(crate::order::key_views(old(keys)@), order@),
        final(items)@ == permuted(old(items)@, order@),
        key_views(final(keys)@) == permuted(key_views(old(keys)@), order@),
{
    let ghost orig = items@;
    let ghost okeys = key_views(keys@);
    let n = items.len();
    let ghost mut p: Seq<int> = Seq::new(n as nat, |k: int| k);
    let mut i: usize = 0;
    while i < n
        invariant
            n == items.len(),
            n == keys.len(),
            n == orig.len(),
            n == okeys.len(),
            i <= n,
            is_permutation(p, n as int),
            forall|k: int| 0 <= k < n ==> #[trigger] items@[k] == orig[p[k]],
            forall|k: int| 0 <= k < n ==> #[trigger] keys@[k]@ == okeys[p[k]],
            forall|k: int| i <= k < n ==> #[trigger] p[k] == k,
            forall|k: int| 0 <= k < i ==> #[trigger] p[k] < i,
            forall|a: int, b: int| 0 <= a < b < i ==> lex_le(#[trigger] keys@[a]@, #[trigger] keys@[b]@),
            forall|a: int, b: int|
                0 <= a < b < i && #[trigger] keys@[a]@ == #[trigger] keys@[b]@ ==> p[a] < p[b],
        decreases n - i,
    {
        let x = items.remove(i);
        let kx = keys.remove(i);
        let ghost pi = p[i as int];
        let ghost p1 = p.remove(i as int);
        let mut j: usize = i;
        while j > 0 && lex_less(&kx, &keys[j - 1])
            invariant
                n - 1 == items.len(),
                n - 1 == keys.len(),
                i < n,
                j <= i,
                forall|k: int| j <= k < i ==> lex_lt(kx@, #[trigger] keys@[k]@),
            decreases j,
        {
            j = j - 1;
        }
        proof {
            assert forall|a: int| 0 <= a < j implies lex_le(#[trigger] keys@[a]@, kx@) by {
                if j > 0 {
                    assert(!lex_lt(kx@, keys@[j - 1]@));
                    if a < j - 1 {
                        assert(lex_le(keys@[a]@, keys@[j - 1]@));
                        lemma_lex_le_transitive(keys@[a]@, keys@[j - 1]@, kx@);
                    }
                }
            }
        }
        items.insert(j, x);
        keys.insert(j, kx);
        proof {
            let p2 = p1.insert(j as int, pi);
            assert forall|a: int, b: int| 0 <= a < b < n implies #[trigger] p2[a] != #[trigger] p2[b] by {
                let oa = if a < j { a } else if a == j { i as int } else if a <= i { a - 1 } else { a };
                let ob = if b < j { b } else if b == j { i as int } else if b <= i { b - 1 } else { b };
                assert(p2[a] == p[oa]);
                assert(p2[b] == p[ob]);
            }
            assert forall|k: int| 0 <= k < n implies #[trigger] items@[k] == orig[p2[k]] by {
                let ok = if k < j { k } else if k == j { i as int } else if k <= i { k - 1 } else { k };
                assert(p2[k] == p[ok]);
            }
            assert forall|a: int, b: int| 0 <= a < b < i + 1 implies lex_le(
                #[trigger] keys@[a]@,
                #[trigger] keys@[b]@,
            ) by {
                if b == j {
                } else if a == j {
                    assert(lex_lt(kx@, keys@[b]@));
                    lemma_lex_total(kx@, keys@[b]@);
                    if lex_lt(keys@[b]@, kx@) {
                        lemma_lex_transitive(kx@, keys@[b]@, kx@);
                        lemma_lex_irreflexive(kx@);
                    }
                }
            }
            assert forall|a: int, b: int|
                0 <= a < b < i + 1 && #[trigger] keys@[a]@ == #[trigger] keys@[b]@ implies p2[a]
                < p2[b] by {
                if a == j {
                    lemma_lex_irreflexive(kx@);
                }
            }
            p = p2;
        }
        i = i + 1;
    }
    proof {
        assert forall|a: int, b: int|
            0 <= a < b < p.len() implies lex_le(okeys[#[trigger] p[a]], okeys[#[trigger] p[b]]) by {
            assert(keys@[a]@ == okeys[p[a]]);
            assert(keys@[b]@ == okeys[p[b]]);
        }
        assert forall|a: int, b: int|
            0 <= a < b < p.len() && okeys[#[trigger] p[a]] == okeys[#[trigger] p[b]] implies p[a]
            < p[b] by {
            assert(keys@[a]@ == okeys[p[a]]);
            assert(keys@[b]@ == okeys[p[b]]);
        }
        assert(items@ =~= permuted(orig, p));
        assert(key_views(keys@) =~= permuted(okeys, p));
    }
    Ghost(p)
}

/// The keys as sequences.
pub open spec fn key_views(v: Seq<Vec<i64>>) -> Seq<Seq<i64>> {
    Seq::new(v.len(), |i: int| v[i]@)
}

} // verus!

verus! {

/// The smallest index below `n` where `p` holds, or -1.
pub open spec fn first_true(n: int, p: spec_fn(int) -> bool) -> int
    decreases n,
{
    if n <= 0 {
        -1
    } else {
        let r = first_true(n - 1, p);
        if r >= 0 {
            r
        } else if p(n - 1) {
            n - 1
        } else {
            -1
        }
    }
}

pub proof fn lemma_first_true_none(n: int, p: spec_fn(int) -> bool)
    requires
        forall|k: int| 0 <= k < n ==> !#[trigger] p(k),
    ensures
        first_true(n, p) == -1,
    decreases n,
{
    if n > 0 {
        lemma_first_true_none(n - 1, p);
    }
}

pub proof fn lemma_first_true_at(n: int, p: spec_fn(int) -> bool, i: int)
    requires
        0 <= i < n,
        p(i),
        forall|k: int| 0 <= k < i ==> !#[trigger] p(k),
    ensures
        first_true(n, p) == i,
    decreases n,
{
    if i < n - 1 {
        lemma_first_true_at(n - 1, p, i);
    } else {
        lemma_first_true_none(n - 1, p);
    }
}

} // verus!

verus! {

/// Every index below `n` is somewhere in a permutation of `0..n`.
pub proof fn lemma_permutation_onto(p: Seq<int>, n: int, x: int)
    requires
        is_permutation(p, n),
        0 <= x < n,
    ensures
        exists|k: int| 0 <= k < n && p[k] == x,
{
    assert(p.no_duplicates()) by {
        assert forall|i: int, j: int| 0 <= i < p.len() && 0 <= j < p.len() && i != j implies p[i] != p[j] by {
            if i < j {
                assert(p[i] != p[j]);
            } else {
                assert(p[j] != p[i]);
            }
        }
    }
    p.unique_seq_to_set();
    vstd::set_lib::lemma_int_range(0, n);
    let r = vstd::set_lib::set_int_range(0, n);
    assert(p.to_set().subset_of(r)) by {
        assert forall|y: int| p.to_set().contains(y) implies r.contains(y) by {
            let k = choose|k: int| 0 <= k < p.len() && p[k] == y;
        }
    }
    vstd::seq_lib::seq_to_set_is_finite(p);
    vstd::set_lib::lemma_subset_equality(p.to_set(), r);
    assert(r.contains(x));
    assert(p.to_set().contains(x));
}

proof fn lemma_stable_orders_agree_at(keys: Seq<Seq<i64>>, p: Seq<int>, q: Seq<int>, j: int)
    requires
        is_stable_order(keys, p),
        is_stable_order(keys, q),
        0 <= j < p.len(),
        forall|t: int| 0 <= t < j ==> p[t] == q[t],
    ensures
        p[j] == q[j],
{
    let n = keys.len() as int;
    let a = p[j];
    let b = q[j];
    if a != b {
        lemma_permutation_onto(p, n, b);
        let m = choose|k: int| 0 <= k < n && p[k] == b;
        lemma_permutation_onto(q, n, a);
        let o = choose|k: int| 0 <= k < n && q[k] == a;
        if m < j {
            assert(q[m] == b);
            assert(q[m] != q[j]);
        }
        if o < j {
            assert(p[o] == a);
            assert(p[o] != p[j]);
        }
        assert(j < m && j < o);
        assert(lex_le(keys[p[j]], keys[p[m]]));
        assert(lex_le(keys[q[j]], keys[q[o]]));
        lemma_lex_total(keys[a], keys[b]);
        assert(keys[a] == keys[b]);
        assert(p[j] < p[m]);
        assert(q[j] < q[o]);
    }
}

proof fn lemma_stable_orders_agree_upto(keys: Seq<Seq<i64>>, p: Seq<int>, q: Seq<int>, j: int)
    requires
        is_stable_order(keys, p),
        is_stable_order(keys, q),
        0 <= j <= p.len(),
    ensures
        forall|t: int| 0 <= t < j ==> p[t] == q[t],
    decreases j,
{
    if j > 0 {
        lemma_stable_orders_agree_upto(keys, p, q, j - 1);
        lemma_stable_orders_agree_at(keys, p, q, j - 1);
    }
}

/// A stable sort has exactly one outcome: two stable orders of the same keys are the
/// same order.
pub proof fn lemma_stable_order_unique(keys: Seq<Seq<i64>>, p: Seq<int>, q: Seq<int>)
    requires
        is_stable_order(keys, p),
        is_stable_order(keys, q),
    ensures
        p == q,
{
    lemma_stable_orders_agree_upto(keys, p, q, p.len() as int);
    assert(p =~= q);
}

} // verus!
