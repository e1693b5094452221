use vstd::prelude::*;

verus! {

/// The characters of a string slice, in order.
pub fn chars_of(s: &str) -> (v: Vec<char>)
    ensures
        v@ == s@,
{
    let mut v: Vec<char> = Vec::new();
    for c in it: s.chars()
        invariant
            v@ == it.seq().take(it.index() as int),
            it.seq() == s@,
    {
        v.push(c);
    }
    v
}

/// Appends one character to a string (`String::push`).
#[verifier::external_body]
fn push_char(s: &mut String, c: char)
    ensures
        final(s)@ == old(s)@.push(c),
{
    s.push(c);
}

/// A string holding exactly the given characters.
pub fn string_of(v: &Vec<char>) -> (s: String)
    ensures
        s@ == v@,
{
    let mut s = String::new();
    for i in 0..v.len()
        invariant
            s@ == v@.take(i as int),
    {
        push_char(&mut s, v[i]);
        assert(v@.take(i as int).push(v@[i as int]) =~= v@.take(i + 1));
    }
    assert(v@.take(v.len() as int) =~= v@);
    s
}

} // verus!

verus! {

/// `char::is_whitespace`: the Unicode White_Space property.
pub open spec fn is_ws(c: char) -> bool {
    let n = c as u32;
    ||| n == 0x20
    ||| (0x09 <= n && n <= 0x0d)
    ||| n == 0x85
    ||| n == 0xa0
    ||| n == 0x1680
    ||| (0x2000 <= n && n <= 0x200a)
    ||| n == 0x2028
    ||| n == 0x2029
    ||| n == 0x202f
    ||| n == 0x205f
    ||| n == 0x3000
}

pub fn is_whitespace(c: char) -> (r: bool)
    ensures
        r == is_ws(c),
{
    let n = c as u32;
    n == 0x20 || (0x09 <= n && n <= 0x0d) || n == 0x85 || n == 0xa0 || n == 0x1680 || (0x2000 <= n
        && n <= 0x200a) || n == 0x2028 || n == 0x2029 || n == 0x202f || n == 0x205f || n == 0x3000
}

/// `s` without its leading white space.
pub open spec fn ltrim(s: Seq<char>) -> Seq<char>
    decreases s.len(),
{
    if s.len() > 0 && is_ws(s[0]) {
        ltrim(s.drop_first())
    } else {
        s
    }
}

/// `s` without its trailing white space.
pub open spec fn rtrim(s: Seq<char>) -> Seq<char>
    decreases s.len(),
{
    if s.len() > 0 && is_ws(s.last()) {
        rtrim(s.drop_last())
    } else {
        s
    }
}

/// `str::trim`.
pub open spec fn trim(s: Seq<char>) -> Seq<char> {
    rtrim(ltrim(s))
}

proof fn lemma_ltrim_skip(s: Seq<char>, i: int)
    requires
        0 <= i <= s.len(),
        forall|k: int| 0 <= k < i ==> is_ws(#[trigger] s[k]),
    ensures
        ltrim(s) == ltrim(s.skip(i)),
    decreases i,
{
    if i > 0 {
        assert(s.drop_first().skip(i - 1) =~= s.skip(i));
        lemma_ltrim_skip(s.drop_first(), i - 1);
    } else {
        assert(s.skip(0) =~= s);
    }
}

proof fn lemma_rtrim_take(s: Seq<char>, j: int)
    requires
        0 <= j <= s.len(),
        forall|k: int| j <= k < s.len() ==> is_ws(#[trigger] s[k]),
    ensures
        rtrim(s) == rtrim(s.take(j)),
    decreases s.len() - j,
{
    if j < s.len() {
        assert(s.drop_last().take(j) =~= s.take(j));
        lemma_rtrim_take(s.drop_last(), j);
    } else {
        assert(s.take(j) =~= s);
    }
}

/// The characters of `s` without leading white space.
pub fn trim_start_chars(s: &Vec<char>) -> (r: Vec<char>)
    ensures
        r@ == ltrim(s@),
{
    let mut i: usize = 0;
    while i < s.len() && is_whitespace(s[i])
        invariant
            i <= s.len(),
            forall|k: int| 0 <= k < i ==> is_ws(#[trigger] s@[k]),
        decreases s.len() - i,
    {
        i = i + 1;
    }
    proof {
        lemma_ltrim_skip(s@, i as int);
    }
    let mut r: Vec<char> = Vec::new();
    let mut k: usize = i;
    while k < s.len()
        invariant
            i <= k <= s.len(),
            r@ == s@.subrange(i as int, k as int),
        decreases s.len() - k,
    {
        r.push(s[k]);
        k = k + 1;
        assert(r@ =~= s@.subrange(i as int, k as int));
    }
    assert(r@ =~= s@.skip(i as int));
    r
}

/// The characters of `s` without trailing white space.
pub fn trim_end_chars(s: &Vec<char>) -> (r: Vec<char>)
    ensures
        r@ == rtrim(s@),
{
    let mut j: usize = s.len();
    while j > 0 && is_whitespace(s[j - 1])
        invariant
            j <= s.len(),
            forall|k: int| j <= k < s.len() ==> is_ws(#[trigger] s@[k]),
        decreases j,
    {
        j = j - 1;
    }
    proof {
        lemma_rtrim_take(s@, j as int);
    }
    let r = take_chars(s, j);
    assert(rtrim(s@.take(j as int)) == s@.take(j as int));
    r
}

/// The first `n` characters of `s`.
pub fn take_chars(s: &Vec<char>, n: usize) -> (r: Vec<char>)
    requires
        n <= s.len(),
    ensures
        r@ == s@.take(n as int),
{
    let mut r: Vec<char> = Vec::new();
    for k in 0..n
        invariant
            n <= s.len(),
            r@ == s@.take(k as int),
    {
        r.push(s[k]);
        assert(r@ =~= s@.take(k + 1));
    }
    r
}

/// The characters of `s` from index `n` on.
pub fn skip_chars(s: &Vec<char>, n: usize) -> (r: Vec<char>)
    requires
        n <= s.len(),
    ensures
        r@ == s@.skip(n as int),
{
    let mut r: Vec<char> = Vec::new();
    let mut k: usize = n;
    while k < s.len()
        invariant
            n <= k <= s.len(),
            r@ == s@.subrange(n as int, k as int),
        decreases s.len() - k,
    {
        r.push(s[k]);
        k = k + 1;
        assert(r@ =~= s@.subrange(n as int, k as int));
    }
    assert(r@ =~= s@.skip(n as int));
    r
}

/// `str::trim`.
pub fn trim_chars(s: &Vec<char>) -> (r: Vec<char>)
    ensures
        r@ == trim(s@),
{
    let a = trim_start_chars(s);
    trim_end_chars(&a)
}

} // verus!

verus! {

/// `s` begins with `p`.
pub open spec fn starts_with(s: Seq<char>, p: Seq<char>) -> bool {
    p.len() <= s.len() && s.take(p.len() as int) == p
}

/// `s` ends with `p`.
pub open spec fn ends_with(s: Seq<char>, p: Seq<char>) -> bool {
    p.len() <= s.len() && s.skip(s.len() - p.len()) == p
}

/// Index of the first occurrence of `p` in `s`, or -1 (`str::find`).
pub open spec fn find_pat(s: Seq<char>, p: Seq<char>) -> int
    decreases s.len(),
{
    if starts_with(s, p) {
        0
    } else if s.len() == 0 {
        -1
    } else {
        let r = find_pat(s.drop_first(), p);
        if r < 0 {
            -1
        } else {
            r + 1
        }
    }
}

/// `s` contains `p` (`str::contains`).
pub open spec fn contains(s: Seq<char>, p: Seq<char>) -> bool {
    find_pat(s, p) >= 0
}

/// Every occurrence of `from` replaced by `to`, scanning left to right (`str::replace`).
pub open spec fn replace_all(s: Seq<char>, from: Seq<char>, to: Seq<char>) -> Seq<char>
    decreases s.len(),
{
    if from.len() == 0 || s.len() == 0 {
        s
    } else if starts_with(s, from) {
        to + replace_all(s.skip(from.len() as int), from, to)
    } else {
        seq![s[0]] + replace_all(s.drop_first(), from, to)
    }
}

/// The first occurrence of `from` replaced by `to`.
pub open spec fn replace_first(s: Seq<char>, from: Seq<char>, to: Seq<char>) -> Seq<char> {
    let i = find_pat(s, from);
    if i < 0 {
        s
    } else {
        s.take(i) + to + s.skip(i + from.len())
    }
}

pub proof fn lemma_find_pat_shift(s: Seq<char>, p: Seq<char>, i: int)
    requires
        0 <= i <= s.len(),
        forall|k: int| 0 <= k < i ==> !starts_with(#[trigger] s.skip(k), p),
    ensures
        find_pat(s, p) == (if find_pat(s.skip(i), p) < 0 {
            -1
        } else {
            i + find_pat(s.skip(i), p)
        }),
    decreases i,
{
    if i == 0 {
        assert(s.skip(0) =~= s);
    } else {
        assert(s.skip(0) =~= s);
        assert forall|k: int| 0 <= k < i - 1 implies !starts_with(
            #[trigger] s.drop_first().skip(k),
            p,
        ) by {
            assert(s.drop_first().skip(k) =~= s.skip(k + 1));
        }
        assert(s.drop_first().skip(i - 1) =~= s.skip(i));
        lemma_find_pat_shift(s.drop_first(), p, i - 1);
    }
}

pub proof fn lemma_find_pat_bounds(s: Seq<char>, p: Seq<char>)
    ensures
        find_pat(s, p) >= -1,
        find_pat(s, p) >= 0 ==> find_pat(s, p) + p.len() <= s.len() && starts_with(
            s.skip(find_pat(s, p)),
            p,
        ),
        find_pat(s, p) >= 0 ==> forall|k: int|
            0 <= k < find_pat(s, p) ==> !starts_with(#[trigger] s.skip(k), p),
    decreases s.len(),
{
    if starts_with(s, p) {
        assert(s.skip(0) =~= s);
    } else if s.len() > 0 {
        lemma_find_pat_bounds(s.drop_first(), p);
        let r = find_pat(s.drop_first(), p);
        if r >= 0 {
            assert(s.drop_first().skip(r) =~= s.skip(r + 1));
            assert forall|k: int| 0 <= k < r + 1 implies !starts_with(#[trigger] s.skip(k), p) by {
                if k == 0 {
                    assert(s.skip(0) =~= s);
                } else {
                    assert(s.drop_first().skip(k - 1) =~= s.skip(k));
                }
            }
        }
    }
}

/// Whether `p` occurs in `s` at index `k`.
pub fn matches_at(s: &Vec<char>, p: &Vec<char>, k: usize) -> (r: bool)
    requires
        k <= s.len(),
    ensures
        r == starts_with(s@.skip(k as int), p@),
{
    if p.len() > s.len() - k {
        return false;
    }
    let mut j: usize = 0;
    while j < p.len()
        invariant
            k + p.len() <= s.len(),
            j <= p.len(),
            forall|m: int| 0 <= m < j ==> s@[k + m] == p@[m],
        decreases p.len() - j,
    {
        if s[k + j] != p[j] {
            assert(s@.skip(k as int).take(p.len() as int)[j as int] != p@[j as int]);
            return false;
        }
        j = j + 1;
    }
    assert(s@.skip(k as int).take(p.len() as int) =~= p@);
    true
}

/// `str::find` on characters.
pub fn find_chars(s: &Vec<char>, p: &Vec<char>) -> (r: Option<usize>)
    ensures
        match r {
            Some(i) => find_pat(s@, p@) == i as int,
            None => find_pat(s@, p@) < 0,
        },
{
    let mut i: usize = 0;
    while i < s.len()
        invariant
            i <= s.len(),
            forall|k: int| 0 <= k < i ==> !starts_with(#[trigger] s@.skip(k), p@),
        decreases s.len() - i,
    {
        if matches_at(s, p, i) {
            proof {
                lemma_find_pat_shift(s@, p@, i as int);
            }
            return Some(i);
        }
        i = i + 1;
    }
    if matches_at(s, p, i) {
        proof {
            lemma_find_pat_shift(s@, p@, i as int);
        }
        return Some(i);
    }
    proof {
        let n = s@.len() as int;
        lemma_find_pat_shift(s@, p@, n);
        assert(s@.skip(n).len() == 0);
        assert(!starts_with(s@.skip(n), p@));
    }
    None
}

/// `str::contains` on characters.
pub fn contains_chars(s: &Vec<char>, p: &Vec<char>) -> (r: bool)
    ensures
        r == contains(s@, p@),
{
    find_chars(s, p).is_some()
}

/// The characters of `a` followed by those of `b`.
pub fn concat_chars(a: &Vec<char>, b: &Vec<char>) -> (r: Vec<char>)
    ensures
        r@ == a@ + b@,
{
    let mut r = a.clone();
    for k in 0..b.len()
        invariant
            r@ == a@ + b@.take(k as int),
    {
        r.push(b[k]);
        assert(a@ + b@.take(k + 1) =~= (a@ + b@.take(k as int)).push(b@[k as int]));
    }
    assert(b@.take(b.len() as int) =~= b@);
    r
}

/// Appends the characters of `b` to `a`.
pub fn extend_chars(a: &mut Vec<char>, b: &Vec<char>)
    ensures
        final(a)@ == old(a)@ + b@,
{
    let ghost a0 = a@;
    for k in 0..b.len()
        invariant
            a@ == a0 + b@.take(k as int),
    {
        a.push(b[k]);
        assert(a0 + b@.take(k + 1) =~= (a0 + b@.take(k as int)).push(b@[k as int]));
    }
    assert(b@.take(b.len() as int) =~= b@);
}

/// Equality of two character vectors.
pub fn chars_eq(a: &Vec<char>, b: &Vec<char>) -> (r: bool)
    ensures
        r == (a@ == b@),
{
    if a.len() != b.len() {
        return false;
    }
    for k in 0..a.len()
        invariant
            a.len() == b.len(),
            forall|m: int| 0 <= m < k ==> a@[m] == b@[m],
    {
        if a[k] != b[k] {
            return false;
        }
    }
    assert(a@ =~= b@);
    true
}

/// Equality of two strings.
pub fn str_eq(a: &str, b: &str) -> (r: bool)
    ensures
        r == (a@ == b@),
{
    chars_eq(&chars_of(a), &chars_of(b))
}

/// `s` begins with `p`, on characters.
pub fn starts_with_chars(s: &Vec<char>, p: &Vec<char>) -> (r: bool)
    ensures
        r == starts_with(s@, p@),
{
    assert(s@.skip(0) =~= s@);
    matches_at(s, p, 0)
}

/// `s` ends with `p`, on characters.
pub fn ends_with_chars(s: &Vec<char>, p: &Vec<char>) -> (r: bool)
    ensures
        r == ends_with(s@, p@),
{
    if p.len() > s.len() {
        return false;
    }
    let k = s.len() - p.len();
    let r = matches_at(s, p, k);
    assert(s@.skip(k as int).take(p.len() as int) =~= s@.skip(k as int));
    r
}

/// `str::replace` on characters, for a non-empty pattern.
pub fn replace_chars(s: &Vec<char>, from: &Vec<char>, to: &Vec<char>) -> (r: Vec<char>)
    requires
        from.len() > 0,
    ensures
        r@ == replace_all(s@, from@, to@),
{
    let mut out: Vec<char> = Vec::new();
    let mut i: usize = 0;
    assert(s@.skip(0) =~= s@);
    while i < s.len()
        invariant
            from.len() > 0,
            i <= s.len(),
            replace_all(s@, from@, to@) == out@ + replace_all(s@.skip(i as int), from@, to@),
        decreases s.len() - i,
    {
        let ghost rest = s@.skip(i as int);
        if matches_at(s, from, i) {
            assert(rest.skip(from.len() as int) =~= s@.skip(i + from.len()));
            extend_chars(&mut out, to);
            i = i + from.len();
        } else {
            assert(rest.drop_first() =~= s@.skip(i + 1));
            assert(rest[0] == s@[i as int]);
            out.push(s[i]);
            i = i + 1;
        }
    }
    assert(s@.skip(i as int).len() == 0);
    assert(out@ + s@.skip(i as int) =~= out@);
    out
}

/// The first occurrence of `from` replaced by `to`.
pub fn replace_first_chars(s: &Vec<char>, from: &Vec<char>, to: &Vec<char>) -> (r: Vec<char>)
    ensures
        r@ == replace_first(s@, from@, to@),
{
    match find_chars(s, from) {
        None => s.clone(),
        Some(i) => {
            proof {
                lemma_find_pat_bounds(s@, from@);
                assert(i + from@.len() <= s@.len());
            }
            let head = take_chars(s, i);
            let tail = skip_chars(s, i + from.len());
            let r1 = concat_chars(&head, to);
            concat_chars(&r1, &tail)
        },
    }
}

} // verus!

verus! {

/// The character sequences held by a vector of character vectors.
pub open spec fn views(v: Seq<Vec<char>>) -> Seq<Seq<char>> {
    Seq::new(v.len(), |i: int| v[i]@)
}

/// A line without the carriage return that ended it.
pub open spec fn strip_cr(l: Seq<char>) -> Seq<char> {
    if l.len() > 0 && l.last() == '\r' {
        l.drop_last()
    } else {
        l
    }
}

/// `str::lines`, continuing a line `cur` that has begun.
pub open spec fn lines_from(s: Seq<char>, cur: Seq<char>) -> Seq<Seq<char>>
    decreases s.len(),
{
    if s.len() == 0 {
        if cur.len() == 0 {
            seq![]
        } else {
            seq![cur]
        }
    } else if s[0] == '\n' {
        seq![strip_cr(cur)] + lines_from(s.drop_first(), seq![])
    } else {
        lines_from(s.drop_first(), cur.push(s[0]))
    }
}

/// `str::lines`: pieces ended by `\n` or `\r\n`; a last piece without end is kept if not empty.
pub open spec fn lines(s: Seq<char>) -> Seq<Seq<char>> {
    lines_from(s, seq![])
}

/// `str::split_whitespace`, continuing a word `cur` that has begun.
pub open spec fn words_from(s: Seq<char>, cur: Seq<char>) -> Seq<Seq<char>>
    decreases s.len(),
{
    if s.len() == 0 {
        if cur.len() == 0 {
            seq![]
        } else {
            seq![cur]
        }
    } else if is_ws(s[0]) {
        if cur.len() == 0 {
            words_from(s.drop_first(), seq![])
        } else {
            seq![cur] + words_from(s.drop_first(), seq![])
        }
    } else {
        words_from(s.drop_first(), cur.push(s[0]))
    }
}

/// `str::split_whitespace`.
pub open spec fn words(s: Seq<char>) -> Seq<Seq<char>> {
    words_from(s, seq![])
}

/// `str::split(sep)` for a one-character separator, continuing a piece `cur`.
pub open spec fn split_from(s: Seq<char>, sep: char, cur: Seq<char>) -> Seq<Seq<char>>
    decreases s.len(),
{
    if s.len() == 0 {
        seq![cur]
    } else if s[0] == sep {
        seq![cur] + split_from(s.drop_first(), sep, seq![])
    } else {
        split_from(s.drop_first(), sep, cur.push(s[0]))
    }
}

/// `str::split(sep)` for a one-character separator.
pub open spec fn split_on(s: Seq<char>, sep: char) -> Seq<Seq<char>> {
    split_from(s, sep, seq![])
}

/// The lines of `s`.
pub fn split_lines(s: &Vec<char>) -> (r: Vec<Vec<char>>)
    ensures
        views(r@) == lines(s@),
{
    let mut out: Vec<Vec<char>> = Vec::new();
    let mut cur: Vec<char> = Vec::new();
    assert(s@.skip(0) =~= s@);
    for i in 0..s.len()
        invariant
            lines(s@) == views(out@) + lines_from(s@.skip(i as int), cur@),
    {
        let ghost rest = s@.skip(i as int);
        assert(rest.drop_first() =~= s@.skip(i + 1));
        assert(rest[0] == s@[i as int]);
        if s[i] == '\n' {
            let mut line = cur;
            if line.len() > 0 && line[line.len() - 1] == '\r' {
                line.pop();
            }
            assert(line@ == strip_cr(cur@));
            let ghost before = views(out@);
            out.push(line);
            assert(views(out@) =~= before.push(strip_cr(cur@)));
            assert(before + (seq![strip_cr(cur@)] + lines_from(s@.skip(i + 1), seq![])) =~= before.push(strip_cr(cur@)) + lines_from(s@.skip(i + 1), seq![]));
            cur = Vec::new();
            assert(cur@ =~= Seq::<char>::empty());
        } else {
            cur.push(s[i]);
        }
    }
    assert(s@.skip(s.len() as int).len() == 0);
    if cur.len() > 0 {
        let ghost before = views(out@);
        let ghost c = cur@;
        out.push(cur);
        assert(views(out@) =~= before + seq![c]);
    } else {
        assert(views(out@) + Seq::<Seq<char>>::empty() =~= views(out@));
    }
    out
}

/// The white-space separated words of `s`.
pub fn split_words(s: &Vec<char>) -> (r: Vec<Vec<char>>)
    ensures
        views(r@) == words(s@),
{
    let mut out: Vec<Vec<char>> = Vec::new();
    let mut cur: Vec<char> = Vec::new();
    assert(s@.skip(0) =~= s@);
    for i in 0..s.len()
        invariant
            words(s@) == views(out@) + words_from(s@.skip(i as int), cur@),
    {
        let ghost rest = s@.skip(i as int);
        assert(rest.drop_first() =~= s@.skip(i + 1));
        assert(rest[0] == s@[i as int]);
        if is_whitespace(s[i]) {
            if cur.len() > 0 {
                let ghost before = views(out@);
                let ghost c = cur@;
                out.push(cur);
                assert(views(out@) =~= before.push(c));
                assert(before + (seq![c] + words_from(s@.skip(i + 1), seq![])) =~= before.push(c) + words_from(s@.skip(i + 1), seq![]));
                cur = Vec::new();
            } else {
                assert(cur@ =~= Seq::<char>::empty());
                cur = Vec::new();
            }
            assert(cur@ =~= Seq::<char>::empty());
        } else {
            cur.push(s[i]);
        }
    }
    assert(s@.skip(s.len() as int).len() == 0);
    if cur.len() > 0 {
        let ghost before = views(out@);
        let ghost c = cur@;
        out.push(cur);
        assert(views(out@) =~= before + seq![c]);
    } else {
        assert(views(out@) + Seq::<Seq<char>>::empty() =~= views(out@));
    }
    out
}

/// The pieces of `s` between occurrences of `sep`.
pub fn split_chars(s: &Vec<char>, sep: char) -> (r: Vec<Vec<char>>)
    ensures
        views(r@) == split_on(s@, sep),
        r.len() >= 1,
{
    let mut out: Vec<Vec<char>> = Vec::new();
    let mut cur: Vec<char> = Vec::new();
    assert(s@.skip(0) =~= s@);
    for i in 0..s.len()
        invariant
            split_on(s@, sep) == views(out@) + split_from(s@.skip(i as int), sep, cur@),
    {
        let ghost rest = s@.skip(i as int);
        assert(rest.drop_first() =~= s@.skip(i + 1));
        assert(rest[0] == s@[i as int]);
        if s[i] == sep {
            let ghost before = views(out@);
            let ghost c = cur@;
            out.push(cur);
            assert(views(out@) =~= before.push(c));
            assert(before + (seq![c] + split_from(s@.skip(i + 1), sep, seq![])) =~= before.push(c) + split_from(s@.skip(i + 1), sep, seq![]));
            cur = Vec::new();
            assert(cur@ =~= Seq::<char>::empty());
        } else {
            cur.push(s[i]);
        }
    }
    assert(s@.skip(s.len() as int).len() == 0);
    let ghost before = views(out@);
    let ghost c = cur@;
    out.push(cur);
    assert(views(out@) =~= before + seq![c]);
    out
}

} // verus!

verus! {

/// `char::to_ascii_lowercase`.
pub open spec fn ascii_lower(c: char) -> char {
    if 'A' <= c && c <= 'Z' {
        ((c as u32) + 32) as char
    } else {
        c
    }
}

pub fn to_ascii_lower(c: char) -> (r: char)
    ensures
        r == ascii_lower(c),
{
    if 'A' <= c && c <= 'Z' {
        let n: u32 = (c as u32) + 32;
        assert(0x61 <= n && n <= 0x7a);
        char_from_ascii(n)
    } else {
        c
    }
}

/// The character with an ASCII code.
pub fn char_from_ascii(n: u32) -> (c: char)
    requires
        n < 128,
    ensures
        c == n as char,
        c as u32 == n,
{
    let b: u8 = n as u8;
    b as char
}

/// `str::eq_ignore_ascii_case`.
pub open spec fn eq_ignore_ascii_case(a: Seq<char>, b: Seq<char>) -> bool {
    a.len() == b.len() && forall|i: int| 0 <= i < a.len() ==> ascii_lower(a[i]) == ascii_lower(
        b[i],
    )
}

pub fn eq_ignore_ascii_case_chars(a: &Vec<char>, b: &Vec<char>) -> (r: bool)
    ensures
        r == eq_ignore_ascii_case(a@, b@),
{
    if a.len() != b.len() {
        return false;
    }
    for k in 0..a.len()
        invariant
            a.len() == b.len(),
            forall|m: int| 0 <= m < k ==> ascii_lower(a@[m]) == ascii_lower(b@[m]),
    {
        if to_ascii_lower(a[k]) != to_ascii_lower(b[k]) {
            return false;
        }
    }
    true
}

/// An ASCII decimal digit.
pub open spec fn is_digit(c: char) -> bool {
    '0' <= c && c <= '9'
}

/// All characters are ASCII digits (`chars().all(is_ascii_digit)`; true when empty).
pub open spec fn all_digits(s: Seq<char>) -> bool {
    forall|i: int| 0 <= i < s.len() ==> is_digit(#[trigger] s[i])
}

/// The value of a sequence of decimal digits.
pub open spec fn digits_value(s: Seq<char>) -> int
    decreases s.len(),
{
    if s.len() == 0 {
        0
    } else {
        digits_value(s.drop_last()) * 10 + ((s.last() as u32) - ('0' as u32))
    }
}

/// `str::parse::<i64>`: an optional sign, then at least one digit, within range.
pub open spec fn parse_i64_spec(s: Seq<char>) -> Option<i64> {
    if s.len() == 0 {
        None
    } else {
        let neg = s[0] == '-';
        let body = if s[0] == '-' || s[0] == '+' {
            s.drop_first()
        } else {
            s
        };
        let v = if neg {
            -digits_value(body)
        } else {
            digits_value(body)
        };
        if body.len() == 0 || !all_digits(body) || v < i64::MIN || v > i64::MAX {
            None
        } else {
            Some(v as i64)
        }
    }
}

/// `str::parse::<usize>`: an optional `+`, then at least one digit, within range.
pub open spec fn parse_usize_spec(s: Seq<char>) -> Option<usize> {
    if s.len() == 0 {
        None
    } else {
        let body = if s[0] == '+' {
            s.drop_first()
        } else {
            s
        };
        if body.len() == 0 || !all_digits(body) || digits_value(body) > usize::MAX {
            None
        } else {
            Some(digits_value(body) as usize)
        }
    }
}

proof fn lemma_digits_value_nonneg(s: Seq<char>)
    requires
        all_digits(s),
    ensures
        digits_value(s) >= 0,
    decreases s.len(),
{
    if s.len() > 0 {
        lemma_digits_value_nonneg(s.drop_last());
    }
}

proof fn lemma_digits_value_grows(s: Seq<char>, k: int)
    requires
        all_digits(s),
        0 <= k <= s.len(),
    ensures
        digits_value(s.take(k)) <= digits_value(s),
    decreases s.len() - k,
{
    if k < s.len() {
        assert(s.drop_last().take(k) =~= s.take(k));
        assert(s.take(s.len() as int) =~= s);
        lemma_digits_value_grows(s.drop_last(), k);
        lemma_digits_value_nonneg(s.drop_last());
    } else {
        assert(s.take(k) =~= s);
    }
}

/// The value of the digits `s[from..]`, if it fits in a `u64`.
fn digits_u64(s: &Vec<char>, from: usize) -> (r: Option<u64>)
    requires
        from <= s.len(),
        all_digits(s@.skip(from as int)),
    ensures
        match r {
            Some(v) => v as int == digits_value(s@.skip(from as int)),
            None => digits_value(s@.skip(from as int)) > u64::MAX,
        },
{
    let ghost body = s@.skip(from as int);
    let mut acc: u64 = 0;
    let mut i: usize = from;
    assert(body.take(0) =~= Seq::<char>::empty());
    while i < s.len()
        invariant
            from <= i <= s.len(),
            body == s@.skip(from as int),
            all_digits(body),
            acc as int == digits_value(body.take(i - from)),
        decreases s.len() - i,
    {
        let ghost k = i - from;
        assert(body.take(k + 1).drop_last() =~= body.take(k));
        assert(body[k] == s@[i as int]);
        assert(is_digit(body[k]));
        let d: u64 = ((s[i] as u32) - ('0' as u32)) as u64;
        match acc.checked_mul(10) {
            None => {
                proof {
                    lemma_digits_value_grows(body, k + 1);
                    lemma_digits_value_nonneg(body.take(k));
                }
                return None;
            },
            Some(m) => match m.checked_add(d) {
                None => {
                    proof {
                        lemma_digits_value_grows(body, k + 1);
                    }
                    return None;
                },
                Some(v) => {
                    acc = v;
                },
            },
        }
        i = i + 1;
    }
    assert(body.take(i - from) =~= body);
    Some(acc)
}

/// `str::parse::<i64>` on characters.
pub fn parse_i64(s: &Vec<char>) -> (r: Option<i64>)
    ensures
        r == parse_i64_spec(s@),
{
    if s.len() == 0 {
        return None;
    }
    let neg = s[0] == '-';
    let from: usize = if s[0] == '-' || s[0] == '+' { 1 } else { 0 };
    let ghost body = s@.skip(from as int);
    assert(from == 1 ==> body =~= s@.drop_first());
    assert(from == 0 ==> body =~= s@);
    if from == s.len() {
        return None;
    }
    for k in from..s.len()
        invariant
            from <= s.len(),
            body == s@.skip(from as int),
            forall|m: int| 0 <= m < k - from ==> is_digit(#[trigger] body[m]),
            s.len() > 0,
            body == (if s@[0] == '-' || s@[0] == '+' { s@.drop_first() } else { s@ }),
    {
        if !(s[k] >= '0' && s[k] <= '9') {
            assert(!is_digit(body[k - from]));
            assert(!all_digits(body));
            return None;
        }
    }
    match digits_u64(s, from) {
        None => None,
        Some(v) => {
            if neg {
                if v <= 9223372036854775808u64 {
                    let w: i128 = -(v as i128);
                    Some(w as i64)
                } else {
                    None
                }
            } else {
                if v <= 9223372036854775807u64 {
                    Some(v as i64)
                } else {
                    None
                }
            }
        },
    }
}

/// `str::parse::<usize>` on characters.
pub fn parse_usize(s: &Vec<char>) -> (r: Option<usize>)
    ensures
        r == parse_usize_spec(s@),
{
    if s.len() == 0 {
        return None;
    }
    let from: usize = if s[0] == '+' { 1 } else { 0 };
    let ghost body = s@.skip(from as int);
    assert(from == 1 ==> body =~= s@.drop_first());
    assert(from == 0 ==> body =~= s@);
    if from == s.len() {
        return None;
    }
    for k in from..s.len()
        invariant
            from <= s.len(),
            body == s@.skip(from as int),
            forall|m: int| 0 <= m < k - from ==> is_digit(#[trigger] body[m]),
            s.len() > 0,
            body == (if s@[0] == '+' { s@.drop_first() } else { s@ }),
    {
        if !(s[k] >= '0' && s[k] <= '9') {
            assert(!is_digit(body[k - from]));
            assert(!all_digits(body));
            return None;
        }
    }
    match digits_u64(s, from) {
        None => None,
        Some(v) => {
            if v <= usize::MAX as u64 {
                Some(v as usize)
            } else {
                None
            }
        },
    }
}

} // verus!

verus! {

/// The character sequences held by a vector of strings.
pub open spec fn string_views(v: Seq<String>) -> Seq<Seq<char>> {
    Seq::new(v.len(), |i: int| v[i]@)
}

} // verus!

verus! {

/// `str::trim_end_matches(c)`: `s` without its trailing `c`s.
pub open spec fn trim_end_char(s: Seq<char>, c: char) -> Seq<char>
    decreases s.len(),
{
    if s.len() > 0 && s.last() == c {
        trim_end_char(s.drop_last(), c)
    } else {
        s
    }
}

/// `str::rsplit(c).next()`: the part of `s` after its last `c` (all of `s` if none).
pub open spec fn after_last(s: Seq<char>, c: char) -> Seq<char>
    decreases s.len(),
{
    if s.len() == 0 {
        s
    } else if s.last() == c {
        seq![]
    } else {
        after_last(s.drop_last(), c).push(s.last())
    }
}

/// Index of the last `c` in `s`, or -1.
pub open spec fn last_index(s: Seq<char>, c: char) -> int
    decreases s.len(),
{
    if s.len() == 0 {
        -1
    } else if s.last() == c {
        s.len() - 1
    } else {
        last_index(s.drop_last(), c)
    }
}

/// `s` contains the character `c`.
pub open spec fn has_char(s: Seq<char>, c: char) -> bool {
    exists|i: int| 0 <= i < s.len() && s[i] == c
}

pub fn trim_end_char_chars(s: &Vec<char>, c: char) -> (r: Vec<char>)
    ensures
        r@ == trim_end_char(s@, c),
{
    let mut j: usize = s.len();
    assert(s@.take(j as int) =~= s@);
    while j > 0 && s[j - 1] == c
        invariant
            j <= s.len(),
            trim_end_char(s@, c) == trim_end_char(s@.take(j as int), c),
        decreases j,
    {
        assert(s@.take(j as int).drop_last() =~= s@.take(j - 1));
        j = j - 1;
    }
    take_chars(s, j)
}

/// Where the tail of `s` after its last `c` begins, with the facts that describe it.
pub fn after_last_start(s: &Vec<char>, c: char) -> (j: usize)
    ensures
        j <= s.len(),
        after_last(s@, c) == s@.skip(j as int),
        last_index(s@, c) == j - 1,
        has_char(s@, c) <==> j > 0,
{
    let mut j: usize = s.len();
    assert(s@.take(j as int) =~= s@);
    assert(s@.skip(j as int) =~= Seq::<char>::empty());
    while j > 0 && s[j - 1] != c
        invariant
            j <= s.len(),
            after_last(s@, c) == after_last(s@.take(j as int), c) + s@.skip(j as int),
            last_index(s@, c) == last_index(s@.take(j as int), c),
            forall|k: int| j <= k < s.len() ==> s@[k] != c,
        decreases j,
    {
        let ghost t = s@.take(j as int);
        assert(t.drop_last() =~= s@.take(j - 1));
        assert(t.last() == s@[j - 1]);
        assert(after_last(t, c) == after_last(t.drop_last(), c).push(t.last()));
        assert(after_last(s@.take(j - 1), c) + s@.skip(j - 1) =~= after_last(s@.take(j - 1), c).push(
            s@[j - 1],
        ) + s@.skip(j as int));
        j = j - 1;
    }
    if j > 0 {
        assert(s@.take(j as int).last() == c);
        assert(after_last(s@.take(j as int), c) =~= Seq::<char>::empty());
        assert(after_last(s@, c) =~= s@.skip(j as int));
        assert(s@[j - 1] == c);
    } else {
        assert(s@.take(0) =~= Seq::<char>::empty());
        assert(after_last(s@, c) =~= s@.skip(0));
        assert(!has_char(s@, c));
    }
    j
}

/// `str::rsplit(c).next()` on characters.
pub fn after_last_chars(s: &Vec<char>, c: char) -> (r: Vec<char>)
    ensures
        r@ == after_last(s@, c),
{
    let j = after_last_start(s, c);
    skip_chars(s, j)
}

} // verus!

verus! {

/// `str::strip_prefix`.
pub open spec fn strip_prefix(s: Seq<char>, p: Seq<char>) -> Option<Seq<char>> {
    if starts_with(s, p) {
        Some(s.skip(p.len() as int))
    } else {
        None
    }
}

/// `str::trim_start_matches(p)`: `s` without any number of leading copies of `p`.
pub open spec fn strip_all_prefix(s: Seq<char>, p: Seq<char>) -> Seq<char>
    decreases s.len(),
{
    if p.len() > 0 && starts_with(s, p) {
        strip_all_prefix(s.skip(p.len() as int), p)
    } else {
        s
    }
}

pub fn strip_prefix_chars(s: &Vec<char>, p: &Vec<char>) -> (r: Option<Vec<char>>)
    ensures
        match r {
            Some(x) => strip_prefix(s@, p@) == Some(x@),
            None => strip_prefix(s@, p@) is None,
        },
{
    if starts_with_chars(s, p) {
        Some(skip_chars(s, p.len()))
    } else {
        None
    }
}

pub fn strip_all_prefix_chars(s: &Vec<char>, p: &Vec<char>) -> (r: Vec<char>)
    ensures
        r@ == strip_all_prefix(s@, p@),
{
    let mut cur = s.clone();
    if p.len() == 0 {
        return cur;
    }
    while starts_with_chars(&cur, p)
        invariant
            p.len() > 0,
            strip_all_prefix(s@, p@) == strip_all_prefix(cur@, p@),
        decreases cur.len(),
    {
        cur = skip_chars(&cur, p.len());
    }
    cur
}

/// Text from characters, through a string slice.
pub fn text_eq(s: &Vec<char>, lit: &str) -> (r: bool)
    ensures
        r == (s@ == lit@),
{
    chars_eq(s, &chars_of(lit))
}

} // verus!

verus! {

/// The character of a decimal digit.
pub open spec fn digit_char(d: int) -> char {
    (('0' as u32) + d) as char
}

/// `u64::to_string`: the decimal digits of `n`, without leading zeros.
pub open spec fn decimal(n: nat) -> Seq<char>
    decreases n,
{
    if n < 10 {
        seq![digit_char(n as int)]
    } else {
        decimal(n / 10).push(digit_char((n % 10) as int))
    }
}

/// `i64::to_string`.
pub open spec fn signed_decimal(n: int) -> Seq<char> {
    if n < 0 {
        seq!['-'] + decimal((-n) as nat)
    } else {
        decimal(n as nat)
    }
}

/// The decimal text of `n`.
pub fn decimal_string(n: u64) -> (r: String)
    ensures
        r@ == decimal(n as nat),
{
    let mut k: u64 = n;
    let mut digits: Vec<char> = Vec::new();
    while k >= 10
        invariant
            decimal(n as nat) == decimal(k as nat) + digits@,
        decreases k,
    {
        let d: u64 = k % 10;
        let c = char_from_ascii(48 + (d as u32));
        proof {
            assert(decimal(k as nat) == decimal((k / 10) as nat).push(digit_char(d as int)));
        }
        let ghost d0 = digits@;
        digits.insert(0, c);
        assert(digits@ =~= seq![c] + d0);
        assert(decimal(n as nat) =~= decimal((k / 10) as nat) + digits@);
        k = k / 10;
    }
    let mut res = Vec::new();
    res.push(char_from_ascii(48 + (k as u32)));
    assert(res@ =~= decimal(k as nat));
    extend_chars(&mut res, &digits);
    string_of(&res)
}

/// The decimal text of `n`, with a `-` when negative.
pub fn signed_decimal_string(n: i64) -> (r: String)
    ensures
        r@ == signed_decimal(n as int),
{
    if n < 0 {
        let m: u64 = if n == i64::MIN {
            9223372036854775808u64
        } else {
            (-n) as u64
        };
        let mut s = String::new();
        s.append("-");
        let d = decimal_string(m);
        s.append(d.as_str());
        proof {
            reveal_strlit("-");
        }
        assert(s@ =~= seq!['-'] + decimal((-(n as int)) as nat));
        s
    } else {
        decimal_string(n as u64)
    }
}

} // verus!

verus! {

/// What `str::to_lowercase` gives for a text (Unicode lower case).
pub uninterp spec fn lowercase(s: Seq<char>) -> Seq<char>;

/// Calls `str::to_lowercase`; the result is named `lowercase` of the text.
#[verifier::external_body]
pub(crate) fn to_lowercase(s: &str) -> (r: String)
    ensures
        r@ == lowercase(s@),
{
    s.to_lowercase()
}

} // verus!

verus! {

/// `[..].join(sep)`: the parts with `sep` between each two.
pub open spec fn join(parts: Seq<Seq<char>>, sep: Seq<char>) -> Seq<char>
    decreases parts.len(),
{
    if parts.len() == 0 {
        seq![]
    } else if parts.len() == 1 {
        parts[0]
    } else {
        join(parts.drop_last(), sep) + sep + parts.last()
    }
}

/// `[..].join(sep)` on strings.
pub fn join_strings(parts: &Vec<String>, sep: &str) -> (r: String)
    ensures
        r@ == join(string_views(parts@), sep@),
{
    let ghost pv = string_views(parts@);
    let mut out = String::new();
    for i in 0..parts.len()
        invariant
            pv == string_views(parts@),
            out@ == join(pv.take(i as int), sep@),
    {
        if i > 0 {
            out.append(sep);
        }
        out.append(parts[i].as_str());
        assert(pv.take(i + 1).drop_last() =~= pv.take(i as int));
        if i == 0 {
            assert(out@ =~= join(pv.take(1), sep@));
        }
    }
    assert(pv.take(parts.len() as int) =~= pv);
    out
}

/// The number of bytes of a character in UTF-8.
pub open spec fn char_utf8_len(c: char) -> nat {
    if (c as u32) < 0x80 {
        1
    } else if (c as u32) < 0x800 {
        2
    } else if (c as u32) < 0x10000 {
        3
    } else {
        4
    }
}

/// `str::len`: the number of bytes of a text in UTF-8.
pub open spec fn utf8_len(s: Seq<char>) -> nat
    decreases s.len(),
{
    if s.len() == 0 {
        0
    } else {
        utf8_len(s.drop_last()) + char_utf8_len(s.last())
    }
}

/// `n` copies of the character `c`.
pub fn repeat_char(c: char, n: usize) -> (r: String)
    ensures
        r@ == Seq::new(n as nat, |i: int| c),
{
    let mut v: Vec<char> = Vec::new();
    for i in 0..n
        invariant
            v@ == Seq::new(i as nat, |k: int| c),
    {
        v.push(c);
        assert(v@ =~= Seq::new((i + 1) as nat, |k: int| c));
    }
    string_of(&v)
}

} // verus!

verus! {

pub proof fn lemma_contains_push(s: Seq<Seq<char>>, y: Seq<char>, x: Seq<char>)
    ensures
        s.push(y).contains(x) == (s.contains(x) || y == x),
{
    if s.push(y).contains(x) {
        let k = choose|k: int| 0 <= k < s.len() + 1 && s.push(y)[k] == x;
        if k < s.len() {
            assert(s[k] == x);
        }
    }
    if s.contains(x) {
        let k = choose|k: int| 0 <= k < s.len() && s[k] == x;
        assert(s.push(y)[k] == x);
    }
    if y == x {
        assert(s.push(y)[s.len() as int] == x);
    }
}

} // verus!
