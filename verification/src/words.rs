use vstd::prelude::*;
use crate::config::owned;
use crate::text::string_views;

verus! {

/// An argument vector of two words.
pub fn v2(a: &str, b: &str) -> (r: Vec<String>)
    ensures
        string_views(r@) == seq![a@, b@],
{
    let mut v: Vec<String> = Vec::new();
    v.push(owned(a));
    v.push(owned(b));
    assert(string_views(v@) =~= seq![a@, b@]);
    v
}

/// An argument vector of three words.
pub fn v3(a: &str, b: &str, c: &str) -> (r: Vec<String>)
    ensures
        string_views(r@) == seq![a@, b@, c@],
{
    let mut v = v2(a, b);
    let ghost v0 = v@;
    v.push(owned(c));
    assert(string_views(v@) =~= string_views(v0).push(c@));
    v
}

/// An argument vector of four words.
pub fn v4(a: &str, b: &str, c: &str, d: &str) -> (r: Vec<String>)
    ensures
        string_views(r@) == seq![a@, b@, c@, d@],
{
    let mut v = v3(a, b, c);
    let ghost v0 = v@;
    v.push(owned(d));
    assert(string_views(v@) =~= string_views(v0).push(d@));
    v
}

/// An argument vector of five words.
pub fn v5(a: &str, b: &str, c: &str, d: &str, e: &str) -> (r: Vec<String>)
    ensures
        string_views(r@) == seq![a@, b@, c@, d@, e@],
{
    let mut v = v4(a, b, c, d);
    let ghost v0 = v@;
    v.push(owned(e));
    assert(string_views(v@) =~= string_views(v0).push(e@));
    v
}

/// An argument vector of six words.
pub fn v6(a: &str, b: &str, c: &str, d: &str, e: &str, f: &str) -> (r: Vec<String>)
    ensures
        string_views(r@) == seq![a@, b@, c@, d@, e@, f@],
{
    let mut v = v5(a, b, c, d, e);
    let ghost v0 = v@;
    v.push(owned(f));
    assert(string_views(v@) =~= string_views(v0).push(f@));
    v
}

/// An argument vector of seven words.
pub fn v7(a: &str, b: &str, c: &str, d: &str, e: &str, f: &str, g: &str) -> (r: Vec<String>)
    ensures
        string_views(r@) == seq![a@, b@, c@, d@, e@, f@, g@],
{
    let mut v = v6(a, b, c, d, e, f);
    let ghost v0 = v@;
    v.push(owned(g));
    assert(string_views(v@) =~= string_views(v0).push(g@));
    v
}

/// An argument vector of eight words.
pub fn v8(a: &str, b: &str, c: &str, d: &str, e: &str, f: &str, g: &str, h: &str) -> (r: Vec<
    String,
>)
    ensures
        string_views(r@) == seq![a@, b@, c@, d@, e@, f@, g@, h@],
{
    let mut v = v7(a, b, c, d, e, f, g);
    let ghost v0 = v@;
    v.push(owned(h));
    assert(string_views(v@) =~= string_views(v0).push(h@));
    v
}

/// `a` followed by `b`, as a new string.
pub fn cat(a: &str, b: &str) -> (r: String)
    ensures
        r@ == a@ + b@,
{
    let mut s = owned(a);
    s.append(b);
    s
}

} // verus!

verus! {

/// An argument vector of nine words.
pub fn v9(a: &str, b: &str, c: &str, d: &str, e: &str, f: &str, g: &str, h: &str, i: &str) -> (r: Vec<String>)
    ensures
        string_views(r@) == seq![a@, b@, c@, d@, e@, f@, g@, h@, i@],
{
    let mut v = v8(a, b, c, d, e, f, g, h);
    let ghost v0 = v@;
    v.push(owned(i));
    assert(string_views(v@) =~= string_views(v0).push(i@));
    v
}

} // verus!
