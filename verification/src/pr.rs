use vstd::prelude::*;
use crate::formats::{json_document, read_json_document};
use crate::clock::{Timestamp, get_relative_time, local_reading, local_time_of, parse_rfc3339, relative_time, rfc3339_instant};
use crate::text::{signed_decimal, signed_decimal_string, str_eq, string_views};
use crate::words::{v4, v9};

verus! {

/// A JSON document as `gh` prints it: numbers that fit `i64` are kept, others only noted.
pub enum JsonValue {
    Null,
    Bool(bool),
    Int(i64),
    OtherNumber,
    Str(String),
    Array(Vec<JsonValue>),
    Object(Vec<(String, JsonValue)>),
}

/// Index of the first entry named `k`, or -1.
pub open spec fn entry_index(es: Seq<(String, JsonValue)>, k: Seq<char>) -> int
    decreases es.len(),
{
    if es.len() == 0 {
        -1
    } else if es.last().0@ == k {
        let r = entry_index(es.drop_last(), k);
        if r >= 0 {
            r
        } else {
            es.len() - 1
        }
    } else {
        entry_index(es.drop_last(), k)
    }
}

/// `Value::get`: the member `k` of an object.
pub open spec fn json_get(v: JsonValue, k: Seq<char>) -> Option<JsonValue> {
    match v {
        JsonValue::Object(es) => {
            let i = entry_index(es@, k);
            if i >= 0 {
                Some(es@[i].1)
            } else {
                None
            }
        },
        _ => None,
    }
}

/// `Value::as_str`, with `""` for anything else.
pub open spec fn text_or_empty(v: Option<JsonValue>) -> Seq<char> {
    match v {
        Some(JsonValue::Str(s)) => s@,
        _ => seq![],
    }
}

/// `Value::as_str`, if it is text.
pub open spec fn text_of(v: Option<JsonValue>) -> Option<Seq<char>> {
    match v {
        Some(JsonValue::Str(s)) => Some(s@),
        _ => None,
    }
}

/// `Value::as_bool`, with `false` for anything else.
pub open spec fn flag_or_false(v: Option<JsonValue>) -> bool {
    match v {
        Some(JsonValue::Bool(b)) => b,
        _ => false,
    }
}

/// `Value::as_i64`, with 0 for anything else.
pub open spec fn int_or_zero(v: Option<JsonValue>) -> i64 {
    match v {
        Some(JsonValue::Int(n)) => n,
        _ => 0,
    }
}

fn entry_index_exec(es: &Vec<(String, JsonValue)>, k: &str) -> (r: Option<usize>)
    ensures
        match r {
            Some(i) => entry_index(es@, k@) == i as int && i < es.len(),
            None => entry_index(es@, k@) < 0,
        },
{
    let mut i: usize = 0;
    while i < es.len()
        invariant
            i <= es.len(),
            forall|j: int| 0 <= j < i ==> #[trigger] es@[j].0@ != k@,
        decreases es.len() - i,
    {
        if str_eq(es[i].0.as_str(), k) {
            proof {
                lemma_entry_index_first(es@, k@, i as int);
            }
            return Some(i);
        }
        i = i + 1;
    }
    proof {
        lemma_entry_index_none(es@, k@);
    }
    None
}

proof fn lemma_entry_index_none(es: Seq<(String, JsonValue)>, k: Seq<char>)
    requires
        forall|j: int| 0 <= j < es.len() ==> #[trigger] es[j].0@ != k,
    ensures
        entry_index(es, k) < 0,
    decreases es.len(),
{
    if es.len() > 0 {
        lemma_entry_index_none(es.drop_last(), k);
    }
}

proof fn lemma_entry_index_first(es: Seq<(String, JsonValue)>, k: Seq<char>, i: int)
    requires
        0 <= i < es.len(),
        es[i].0@ == k,
        forall|j: int| 0 <= j < i ==> #[trigger] es[j].0@ != k,
    ensures
        entry_index(es, k) == i,
    decreases es.len(),
{
    if i < es.len() - 1 {
        lemma_entry_index_first(es.drop_last(), k, i);
    } else {
        lemma_entry_index_none(es.drop_last(), k);
    }
}

/// `Value::get` on an object.
pub fn get_member<'a>(v: &'a JsonValue, k: &str) -> (r: Option<&'a JsonValue>)
    ensures
        match r {
            Some(x) => json_get(*v, k@) == Some(*x),
            None => json_get(*v, k@) is None,
        },
{
    match v {
        JsonValue::Object(es) => match entry_index_exec(es, k) {
            Some(i) => Some(&es[i].1),
            None => None,
        },
        _ => None,
    }
}

/// What `wt list --pr` shows of a pull request.
pub struct PrSummary {
    pub state: String,
    pub is_draft: bool,
    pub url: String,
    pub number: i64,
    pub created_at: Option<String>,
}

/// The fields of a pull request as `gh` lists it, with the defaults used when a field is missing.
pub open spec fn summary_matches(s: PrSummary, pr: JsonValue) -> bool {
    &&& s.state@ == text_or_empty(json_get(pr, "state"@))
    &&& s.is_draft == flag_or_false(json_get(pr, "isDraft"@))
    &&& s.url@ == text_or_empty(json_get(pr, "url"@))
    &&& s.number == int_or_zero(json_get(pr, "number"@))
    &&& match s.created_at {
        Some(c) => text_of(json_get(pr, "createdAt"@)) == Some(c@),
        None => text_of(json_get(pr, "createdAt"@)) is None,
    }
}

fn text_member(v: &JsonValue, k: &str) -> (r: Option<String>)
    ensures
        match r {
            Some(s) => text_of(json_get(*v, k@)) == Some(s@),
            None => text_of(json_get(*v, k@)) is None,
        },
{
    match get_member(v, k) {
        Some(JsonValue::Str(s)) => Some(s.clone()),
        _ => None,
    }
}

/// The fields `wt list --pr` reads of one pull request.
pub fn pr_summary(pr: &JsonValue) -> (r: PrSummary)
    ensures
        summary_matches(r, *pr),
{
    let state = match text_member(pr, "state") {
        Some(s) => s,
        None => String::new(),
    };
    let url = match text_member(pr, "url") {
        Some(s) => s,
        None => String::new(),
    };
    let is_draft = match get_member(pr, "isDraft") {
        Some(JsonValue::Bool(b)) => *b,
        _ => false,
    };
    let number = match get_member(pr, "number") {
        Some(JsonValue::Int(n)) => *n,
        _ => 0,
    };
    PrSummary { state, is_draft, url, number, created_at: text_member(pr, "createdAt") }
}

/// The mark of a pull request's state: a gray circle for a draft, a green dot when open,
/// a magenta check when merged, a red cross otherwise.
pub open spec fn state_symbol(s: PrSummary) -> Seq<char> {
    if s.is_draft {
        "\x1b[90m◌\x1b[0m"@
    } else if s.state@ == "OPEN"@ {
        "\x1b[32m●\x1b[0m"@
    } else if s.state@ == "MERGED"@ {
        "\x1b[35m✔\x1b[0m"@
    } else {
        "\x1b[31m✘\x1b[0m"@
    }
}

/// The line shown for a pull request: the mark, the number as a terminal link to the pull request, and
/// how long ago it was opened.
pub open spec fn pr_line_spec(s: PrSummary, age: Seq<char>) -> Seq<char> {
    state_symbol(s) + " \x1b]8;;"@ + s.url@ + "\x1b\\#"@ + signed_decimal(s.number as int)
        + "\x1b]8;;\x1b\\ ("@ + age + ")"@
}

/// The line for a pull request, given how long ago it was opened.
pub fn pr_line(s: &PrSummary, age: &str) -> (r: String)
    ensures
        r@ == pr_line_spec(*s, age@),
{
    let mut out = if s.is_draft {
        String::from_str("\x1b[90m◌\x1b[0m")
    } else if str_eq(s.state.as_str(), "OPEN") {
        String::from_str("\x1b[32m●\x1b[0m")
    } else if str_eq(s.state.as_str(), "MERGED") {
        String::from_str("\x1b[35m✔\x1b[0m")
    } else {
        String::from_str("\x1b[31m✘\x1b[0m")
    };
    out.append(" \x1b]8;;");
    out.append(s.url.as_str());
    out.append("\x1b\\#");
    out.append(signed_decimal_string(s.number).as_str());
    out.append("\x1b]8;;\x1b\\ (");
    out.append(age);
    out.append(")");
    out
}

/// The instant a pull request was opened, when its creation time reads as RFC 3339.
pub open spec fn pr_instant(s: PrSummary) -> Option<(i64, u32)> {
    match s.created_at {
        Some(c) => rfc3339_instant(c@),
        None => None,
    }
}

/// `age` is how long ago the pull request was opened, seen at `now`: `N/A` without a
/// creation time that reads as RFC 3339, else the relative time of its local reading.
pub open spec fn pr_age_spec(s: PrSummary, now: Timestamp, age: Seq<char>) -> bool {
    exists|t: Option<Timestamp>| local_reading(pr_instant(s), t) && age == relative_time(t, now)
}

/// How long ago a pull request was opened, seen at `now`.
pub fn pr_age(s: &PrSummary, now: Timestamp) -> (r: String)
    ensures
        pr_age_spec(*s, now, r@),
        pr_instant(*s) is None ==> r@ == "N/A"@,
{
    let instant = match &s.created_at {
        Some(c) => parse_rfc3339(c.as_str()),
        None => None,
    };
    let t = local_time_of(instant);
    get_relative_time(t, now)
}

/// `line` is what is shown for the pull requests `gh pr list` gave: the line of the
/// first one listed, seen at `now`, or nothing when none is.
pub open spec fn pr_info_spec(prs: JsonValue, now: Timestamp, line: Seq<char>) -> bool {
    match prs {
        JsonValue::Array(items) => if items.len() > 0 {
            exists|s: PrSummary, age: Seq<char>|
                summary_matches(s, items@[0]) && pr_age_spec(s, now, age) && line == pr_line_spec(
                    s,
                    age,
                )
        } else {
            line.len() == 0
        },
        _ => line.len() == 0,
    }
}

/// The line for what `gh pr list` printed: the line of the first pull request listed,
/// or nothing when none is.
pub fn pr_info_from_list(prs: &JsonValue, now: Timestamp) -> (r: String)
    ensures
        pr_info_spec(*prs, now, r@),
{
    match prs {
        JsonValue::Array(items) => {
            if items.len() == 0 {
                return String::new();
            }
            let s = pr_summary(&items[0]);
            let age = pr_age(&s, now);
            pr_line(&s, age.as_str())
        },
        _ => String::new(),
    }
}

/// The line for the text `gh pr list --json ...` printed: nothing unless it is JSON.
pub fn pr_info_from_text(out: &str, now: Timestamp) -> (r: String)
    ensures
        match json_document(out@) {
            Some(prs) => pr_info_spec(prs, now, r@),
            None => r@.len() == 0,
        },
{
    match read_json_document(out) {
        Some(prs) => pr_info_from_list(&prs, now),
        None => String::new(),
    }
}

/// Branches that have no pull request to look up: none, a bare `HEAD`, or a detached one.
pub open spec fn pr_lookup_wanted(branch: Seq<char>) -> bool {
    branch.len() > 0 && branch != "HEAD"@ && branch != "DETACHED"@
}

pub fn pr_lookup_needed(branch: &str) -> (r: bool)
    ensures
        r == pr_lookup_wanted(branch@),
{
    !(branch.unicode_len() == 0 || str_eq(branch, "HEAD") || str_eq(branch, "DETACHED"))
}

/// The one `gh` call that lists the recent pull requests of every branch.
pub fn pr_batch_command() -> (r: Vec<String>)
    ensures
        string_views(r@) == seq![
            "gh"@,
            "pr"@,
            "list"@,
            "--state"@,
            "all"@,
            "--limit"@,
            "12"@,
            "--json"@,
            "headRefName,state,isDraft,url,createdAt,number"@,
        ],
{
    v9("gh", "pr", "list", "--state", "all", "--limit", "12", "--json", "headRefName,state,isDraft,url,createdAt,number")
}

/// The `gh` call for the pull requests of one branch.
pub fn pr_branch_command(branch: &str) -> (r: Vec<String>)
    ensures
        string_views(r@) == seq![
            "gh"@,
            "pr"@,
            "list"@,
            "--head"@,
            branch@,
            "--state"@,
            "all"@,
            "--json"@,
            "state,isDraft,url,createdAt,number"@,
        ],
{
    v9("gh", "pr", "list", "--head", branch, "--state", "all", "--json", "state,isDraft,url,createdAt,number")
}

/// Index of the first pull request of `branch` among `items`, or -1.
pub open spec fn branch_pr_index(items: Seq<JsonValue>, branch: Seq<char>) -> int
    decreases items.len(),
{
    if items.len() == 0 {
        -1
    } else {
        let r = branch_pr_index(items.drop_last(), branch);
        if r >= 0 {
            r
        } else if text_of(json_get(items.last(), "headRefName"@)) == Some(branch) {
            items.len() - 1
        } else {
            -1
        }
    }
}

proof fn lemma_branch_pr_none(items: Seq<JsonValue>, branch: Seq<char>)
    requires
        forall|j: int|
            0 <= j < items.len() ==> text_of(json_get(#[trigger] items[j], "headRefName"@)) != Some(
                branch,
            ),
    ensures
        branch_pr_index(items, branch) < 0,
    decreases items.len(),
{
    if items.len() > 0 {
        lemma_branch_pr_none(items.drop_last(), branch);
    }
}

proof fn lemma_branch_pr_first(items: Seq<JsonValue>, branch: Seq<char>, i: int)
    requires
        0 <= i < items.len(),
        text_of(json_get(items[i], "headRefName"@)) == Some(branch),
        forall|j: int|
            0 <= j < i ==> text_of(json_get(#[trigger] items[j], "headRefName"@)) != Some(branch),
    ensures
        branch_pr_index(items, branch) == i,
    decreases items.len(),
{
    if i < items.len() - 1 {
        lemma_branch_pr_first(items.drop_last(), branch, i);
    } else {
        lemma_branch_pr_none(items.drop_last(), branch);
    }
}

/// The first pull request of `branch` in the batch listing, if the listing has one.
pub fn find_branch_pr<'a>(batch: &'a JsonValue, branch: &str) -> (r: Option<&'a JsonValue>)
    ensures
        !(batch is Array) ==> r is None,
        batch matches JsonValue::Array(items) ==> match r {
            Some(x) => branch_pr_index(items@, branch@) >= 0 && *x == items@[branch_pr_index(
                items@,
                branch@,
            )],
            None => branch_pr_index(items@, branch@) < 0,
        },
{
    match batch {
        JsonValue::Array(items) => {
            let mut i: usize = 0;
            while i < items.len()
                invariant
                    i <= items.len(),
                    *batch == JsonValue::Array(*items),
                    forall|j: int|
                        0 <= j < i ==> text_of(json_get(#[trigger] items@[j], "headRefName"@))
                            != Some(branch@),
                decreases items.len() - i,
            {
                match text_member(&items[i], "headRefName") {
                    Some(h) => {
                        if str_eq(h.as_str(), branch) {
                            proof {
                                lemma_branch_pr_first(items@, branch@, i as int);
                            }
                            let x = &items[i];
                            assert(branch_pr_index(items@, branch@) == i as int);
                            assert(*x == items@[i as int]);
                            return Some(x);
                        }
                    },
                    None => {},
                }
                i = i + 1;
            }
            proof {
                lemma_branch_pr_none(items@, branch@);
            }
            None
        },
        _ => None,
    }
}

} // verus!
