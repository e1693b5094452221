use vstd::prelude::*;
use crate::config::{Cfg, ConfigValue, cfg_as_str, cfg_get, config_diff_tool, config_get_str, config_setup_files, diff_tool_spec, setup_files_spec, value_as_str, value_get};
use crate::formats::{read_toml_document, toml_document, toml_inline, write_toml_inline};
use crate::text::{join, join_strings, lines, split_lines, str_eq, string_of, string_views, chars_of, trim, trim_chars};

verus! {

/// What `{:?}` prints for a text (quoted, with Rust's escapes).
pub uninterp spec fn debug_text(s: Seq<char>) -> Seq<char>;

/// Calls `format!("{:?}", s)` on a `str`; the result is named `debug_text` of the text.
#[verifier::external_body]
pub(crate) fn debug_str(s: &str) -> (r: String)
    ensures
        r@ == debug_text(s@),
{
    format!("{:?}", s)
}

/// What `{:?}` prints for a list of texts.
pub open spec fn debug_list(items: Seq<Seq<char>>) -> Seq<char> {
    "["@ + join(Seq::new(items.len(), |i: int| debug_text(items[i])), ", "@) + "]"@
}

pub fn debug_strings(items: &Vec<String>) -> (r: String)
    ensures
        r@ == debug_list(string_views(items@)),
{
    let mut quoted: Vec<String> = Vec::new();
    for i in 0..items.len()
        invariant
            quoted.len() == i,
            forall|k: int| 0 <= k < i ==> #[trigger] quoted@[k]@ == debug_text(items@[k]@),
    {
        quoted.push(debug_str(items[i].as_str()));
    }
    assert(string_views(quoted@) =~= Seq::new(
        string_views(items@).len(),
        |i: int| debug_text(string_views(items@)[i]),
    ));
    let mut out = String::from_str("[");
    out.append(join_strings(&quoted, ", ").as_str());
    out.append("]");
    out
}

/// The optional tools `wt doctor` looks for: label, command and what it is for.
pub open spec fn doctor_tools_spec() -> Seq<(Seq<char>, Seq<char>, Seq<char>)> {
    seq![
        ("GitHub CLI (gh)"@, "gh"@, "Optional"@),
        ("fzf"@, "fzf"@, "Optional, used for interactive selection"@),
        ("GitUI"@, "gitui"@, "Optional, used for UI diffs"@),
        ("Tig"@, "tig"@, "Optional, used for UI diffs"@),
    ]
}

pub fn doctor_tools() -> (r: Vec<(&'static str, &'static str, &'static str)>)
    ensures
        Seq::new(r@.len(), |i: int| (r@[i].0@, r@[i].1@, r@[i].2@)) == doctor_tools_spec(),
{
    let v = vec![
        ("GitHub CLI (gh)", "gh", "Optional"),
        ("fzf", "fzf", "Optional, used for interactive selection"),
        ("GitUI", "gitui", "Optional, used for UI diffs"),
        ("Tig", "tig", "Optional, used for UI diffs"),
    ];
    assert(Seq::new(v@.len(), |i: int| (v@[i].0@, v@[i].1@, v@[i].2@)) =~= doctor_tools_spec());
    v
}

/// The first line of a text, trimmed (empty when there is none).
pub open spec fn first_line(s: Seq<char>) -> Seq<char> {
    if lines(s).len() > 0 {
        trim(lines(s)[0])
    } else {
        seq![]
    }
}

/// A tool's line: its version's first line and where it is, or that it was not found.
pub open spec fn tool_line_spec(label: Seq<char>, found: Option<(Seq<char>, Seq<char>)>, note: Seq<char>) -> Seq<char> {
    match found {
        Some((path, out)) => label + ": "@ + first_line(out) + " ("@ + path + ")"@,
        None => label + ": Not found ("@ + note + ")"@,
    }
}

/// `found` is the tool's path and what `--version` printed.
pub fn tool_line(label: &str, found: Option<(&str, &str)>, note: &str) -> (r: String)
    ensures
        r@ == tool_line_spec(label@, match found {
            Some((p, o)) => Some((p@, o@)),
            None => None,
        }, note@),
{
    let mut s = String::from_str(label);
    match found {
        Some((path, out)) => {
            let ls = split_lines(&chars_of(out));
            let first = if ls.len() > 0 {
                string_of(&trim_chars(&ls[0]))
            } else {
                String::new()
            };
            s.append(": ");
            s.append(first.as_str());
            s.append(" (");
            s.append(path);
            s.append(")");
        },
        None => {
            s.append(": Not found (");
            s.append(note);
            s.append(")");
        },
    }
    s
}

/// Git's line: its version, trimmed, and where it is.
pub fn git_line(found: Option<(&str, &str)>) -> (r: String)
    ensures
        r@ == match found {
            Some((p, o)) => "Git: "@ + trim(o@) + " ("@ + p@ + ")"@,
            None => "Git: Not found ❌"@,
        },
{
    match found {
        Some((path, out)) => {
            let mut s = String::from_str("Git: ");
            s.append(string_of(&trim_chars(&chars_of(out))).as_str());
            s.append(" (");
            s.append(path);
            s.append(")");
            s
        },
        None => String::from_str("Git: Not found ❌"),
    }
}

/// The configured source of setup files as `wt doctor` shows it.
pub open spec fn source_shown(c: crate::config::Cfg) -> Seq<char> {
    match cfg_as_str(cfg_get(c, "setup_source_dir"@)) {
        Some(s) => if s.len() > 0 {
            s
        } else {
            "Auto-detect"@
        },
        None => "Auto-detect"@,
    }
}

/// The lines of `wt doctor`'s active configuration.
pub open spec fn active_config_spec(c: crate::config::Cfg) -> Seq<Seq<char>> {
    seq![
        "Active Config:"@,
        "  - worktrees_dir: "@ + match cfg_as_str(cfg_get(c, "worktrees_dir"@)) {
            Some(s) => s,
            None => ".worktrees"@,
        },
        "  - setup_files: "@ + debug_list(setup_files_spec(c)),
        "  - setup_source_dir: "@ + source_shown(c),
        "  - diff.tool: "@ + diff_tool_spec(c),
    ]
}

pub fn active_config_lines(config: &ConfigValue) -> (r: Vec<String>)
    ensures
        string_views(r@) == active_config_spec(config@),
{
    let mut out: Vec<String> = Vec::new();
    out.push(String::from_str("Active Config:"));
    let mut a = String::from_str("  - worktrees_dir: ");
    a.append(config_get_str(config, "worktrees_dir", ".worktrees").as_str());
    out.push(a);
    let mut b = String::from_str("  - setup_files: ");
    b.append(debug_strings(&config_setup_files(config)).as_str());
    out.push(b);
    let mut c = String::from_str("  - setup_source_dir: ");
    let shown: String = match value_as_str(value_get(config, "setup_source_dir")) {
        Some(s) => {
            if s.as_str().unicode_len() > 0 {
                s.clone()
            } else {
                String::from_str("Auto-detect")
            }
        },
        None => String::from_str("Auto-detect"),
    };
    c.append(shown.as_str());
    out.push(c);
    let mut d = String::from_str("  - diff.tool: ");
    d.append(config_diff_tool(config).as_str());
    out.push(d);
    assert(string_views(out@) =~= active_config_spec(config@));
    out
}

/// A top-level entry of a configuration file as `wt doctor` checks it: its key, its value
/// as TOML prints it, and, when the value is a table, its entries printed the same way.
pub struct DoctorEntry {
    pub key: String,
    pub shown: String,
    pub table: Option<Vec<(String, String)>>,
}

/// The keys a configuration file may hold at its top level.
pub open spec fn known_key(k: Seq<char>) -> bool {
    k == "worktrees_dir"@ || k == "setup_files"@ || k == "setup_source_dir"@ || k == "diff"@
}

pub open spec fn diff_lines(es: Seq<(String, String)>) -> Seq<Seq<char>>
    decreases es.len(),
{
    if es.len() == 0 {
        seq![]
    } else {
        let (k, v) = es.last();
        diff_lines(es.drop_last()).push(if k@ == "tool"@ {
            "    - "@ + k@ + ": "@ + v@
        } else {
            "    ⚠️  Warning: Unknown key 'diff."@ + k@ + "'"@
        })
    }
}

/// The lines for one entry: a warning for an unknown key; for `diff`, its heading and
/// then each of its entries (a warning for any but `tool`); else the key and its value.
pub open spec fn entry_lines(e: DoctorEntry) -> Seq<Seq<char>> {
    if !known_key(e.key@) {
        seq!["  ⚠️  Warning: Unknown configuration key '"@ + e.key@ + "'"@]
    } else if e.key@ == "diff"@ {
        seq!["  - diff:"@] + match e.table {
            Some(t) => diff_lines(t@),
            None => seq![],
        }
    } else {
        seq!["  - "@ + e.key@ + ": "@ + e.shown@]
    }
}

pub open spec fn entries_lines(es: Seq<DoctorEntry>) -> Seq<Seq<char>>
    decreases es.len(),
{
    if es.len() == 0 {
        seq![]
    } else {
        entries_lines(es.drop_last()) + entry_lines(es.last())
    }
}

/// The state of a configuration file.
pub enum ConfigFileState {
    Missing,
    Empty,
    Entries(Vec<DoctorEntry>),
    NotTable,
    Invalid(String),
}

/// The report on a configuration file: where the file is and whether it exists, then what it
/// holds.
pub open spec fn config_file_spec(label: Seq<char>, path: Seq<char>, state: ConfigFileState) -> Seq<Seq<char>> {
    match state {
        ConfigFileState::Missing => seq![label + ": "@ + path + " (Not found)"@],
        _ => seq![label + ": "@ + path + " (Exists)"@] + match state {
            ConfigFileState::Empty => seq!["  (Empty)"@],
            ConfigFileState::Entries(es) => entries_lines(es@),
            ConfigFileState::NotTable => seq!["  Error reading config: root must be a table"@],
            ConfigFileState::Invalid(e) => seq!["  Error reading config: "@ + e@],
            _ => seq![],
        },
    }
}

fn push_diff_lines(out: &mut Vec<String>, es: &Vec<(String, String)>)
    ensures
        string_views(final(out)@) == string_views(old(out)@) + diff_lines(es@),
{
    let ghost o0 = string_views(out@);
    for i in 0..es.len()
        invariant
            string_views(out@) == o0 + diff_lines(es@.take(i as int)),
    {
        assert(es@.take(i + 1).drop_last() =~= es@.take(i as int));
        let k = es[i].0.as_str();
        let v = es[i].1.as_str();
        let line = if str_eq(k, "tool") {
            let mut s = String::from_str("    - ");
            s.append(k);
            s.append(": ");
            s.append(v);
            s
        } else {
            let mut s = String::from_str("    ⚠️  Warning: Unknown key 'diff.");
            s.append(k);
            s.append("'");
            s
        };
        let ghost b = string_views(out@);
        out.push(line);
        assert(string_views(out@) =~= b.push(line@));
    }
    assert(es@.take(es.len() as int) =~= es@);
}

fn push_entry_lines(out: &mut Vec<String>, e: &DoctorEntry)
    ensures
        string_views(final(out)@) == string_views(old(out)@) + entry_lines(*e),
{
    let ghost o0 = string_views(out@);
    let k = e.key.as_str();
    let known = str_eq(k, "worktrees_dir") || str_eq(k, "setup_files") || str_eq(k, "setup_source_dir") || str_eq(k, "diff");
    if !known {
        let mut s = String::from_str("  ⚠️  Warning: Unknown configuration key '");
        s.append(k);
        s.append("'");
        out.push(s);
        assert(string_views(out@) =~= o0 + entry_lines(*e));
    } else if str_eq(k, "diff") {
        out.push(String::from_str("  - diff:"));
        let ghost o1 = string_views(out@);
        assert(o1 =~= o0 + seq!["  - diff:"@]);
        match &e.table {
            Some(t) => {
                push_diff_lines(out, t);
            },
            None => {},
        }
        assert(string_views(out@) =~= o0 + entry_lines(*e));
    } else {
        let mut s = String::from_str("  - ");
        s.append(k);
        s.append(": ");
        s.append(e.shown.as_str());
        out.push(s);
        assert(string_views(out@) =~= o0 + entry_lines(*e));
    }
}

/// The lines of the report on a configuration file.
pub fn config_file_lines(label: &str, path: &str, state: &ConfigFileState) -> (r: Vec<String>)
    ensures
        string_views(r@) == config_file_spec(label@, path@, *state),
{
    let mut out: Vec<String> = Vec::new();
    let mut head = String::from_str(label);
    head.append(": ");
    head.append(path);
    match state {
        ConfigFileState::Missing => {
            head.append(" (Not found)");
            out.push(head);
            assert(string_views(out@) =~= config_file_spec(label@, path@, *state));
            return out;
        },
        _ => {},
    }
    head.append(" (Exists)");
    out.push(head);
    let ghost o0 = string_views(out@);
    match state {
        ConfigFileState::Empty => {
            out.push(String::from_str("  (Empty)"));
        },
        ConfigFileState::Entries(es) => {
            for i in 0..es.len()
                invariant
                    string_views(out@) == o0 + entries_lines(es@.take(i as int)),
            {
                assert(es@.take(i + 1).drop_last() =~= es@.take(i as int));
                let ghost b = string_views(out@);
                push_entry_lines(&mut out, &es[i]);
                assert(string_views(out@) =~= o0 + entries_lines(es@.take(i + 1)));
            }
            assert(es@.take(es.len() as int) =~= es@);
        },
        ConfigFileState::NotTable => {
            out.push(String::from_str("  Error reading config: root must be a table"));
        },
        ConfigFileState::Invalid(e) => {
            let mut s = String::from_str("  Error reading config: ");
            s.append(e.as_str());
            out.push(s);
        },
        _ => {},
    }
    assert(string_views(out@) =~= config_file_spec(label@, path@, *state));
    out
}


/// `e` reports the top-level entry `k = v`: its key, `v` as inline TOML, and, when `v` is a
/// table, each of its entries the same way.
pub open spec fn entry_of(k: Seq<char>, v: Cfg, e: DoctorEntry) -> bool {
    &&& e.key@ == k
    &&& e.shown@ == toml_inline(v)
    &&& match v {
        Cfg::Table(t) => e.table matches Some(tv) && tv@.len() == t.len() && forall|j: int|
            0 <= j < t.len() ==> (#[trigger] tv@[j]).0@ == t[j].0 && tv@[j].1@ == toml_inline(
                t[j].1,
            ),
        _ => e.table is None,
    }
}

/// `r` is the state of a configuration file with the text `text`: the error `toml` reports,
/// empty, its entries, or not a table.
pub open spec fn file_state_spec(text: Seq<char>, r: ConfigFileState) -> bool {
    match toml_document(text) {
        Err(e) => r matches ConfigFileState::Invalid(m) && m@ == e,
        Ok(Cfg::Table(es)) => if es.len() == 0 {
            r is Empty
        } else {
            r matches ConfigFileState::Entries(v) && v@.len() == es.len() && forall|i: int|
                0 <= i < es.len() ==> entry_of(es[i].0, es[i].1, #[trigger] v@[i])
        },
        Ok(_) => r is NotTable,
    }
}

fn doctor_entry(k: &String, v: &ConfigValue) -> (r: DoctorEntry)
    ensures
        entry_of(k@, v@, r),
{
    broadcast use crate::config::group_config_views;

    let shown = write_toml_inline(v);
    let table = match v {
        ConfigValue::Table(t) => {
            let mut tv: Vec<(String, String)> = Vec::new();
            for j in 0..t.len()
                invariant
                    tv@.len() == j,
                    forall|m: int|
                        0 <= m < j ==> (#[trigger] tv@[m]).0@ == t@[m].0@ && tv@[m].1@
                            == toml_inline(t@[m].1@),
            {
                tv.push((crate::config::owned(t[j].0.as_str()), write_toml_inline(&t[j].1)));
            }
            proof {
                crate::config::lemma_view_entries(t@);
            }
            Some(tv)
        },
        _ => None,
    };
    DoctorEntry { key: crate::config::owned(k.as_str()), shown, table }
}

/// The state of a configuration file that exists, from its text.
pub fn config_file_state(text: &str) -> (r: ConfigFileState)
    ensures
        file_state_spec(text@, r),
{
    broadcast use crate::config::group_config_views;

    match read_toml_document(text) {
        Err(e) => ConfigFileState::Invalid(e),
        Ok(ConfigValue::Table(es)) => {
            proof {
                crate::config::lemma_view_entries(es@);
            }
            if es.len() == 0 {
                ConfigFileState::Empty
            } else {
                let mut v: Vec<DoctorEntry> = Vec::new();
                for i in 0..es.len()
                    invariant
                        v@.len() == i,
                        forall|m: int|
                            0 <= m < i ==> entry_of(es@[m].0@, es@[m].1@, #[trigger] v@[m]),
                {
                    v.push(doctor_entry(&es[i].0, &es[i].1));
                }
                ConfigFileState::Entries(v)
            }
        },
        Ok(_) => ConfigFileState::NotTable,
    }
}


/// What `wt doctor` knows of the repository it runs in: its root, whether it is bare, the
/// worktree that holds `.wt`, and whether that `.wt` directory exists.
pub struct RepoFacts {
    pub root: String,
    pub is_bare: bool,
    pub home: Option<String>,
    pub wt_dir_exists: bool,
}

/// The environment lines of `wt doctor` (before the active configuration).
pub open spec fn environment_spec(facts: Option<RepoFacts>) -> Seq<Seq<char>> {
    match facts {
        None => seq!["Project Root: Not in a git repository"@],
        Some(f) => seq![
            "Project Root: "@ + f.root@,
            "Repository Type: "@ + if f.is_bare {
                "Bare"@
            } else {
                "Normal"@
            },
            "WT Home: "@ + match f.home {
                Some(h) => h@,
                None => "Not found"@,
            },
        ] + match f.home {
            Some(h) => seq![
                ".wt Directory: "@ + crate::paths::join_spec(h@, ".wt"@) + if f.wt_dir_exists {
                    " (Exists)"@
                } else {
                    " (Not found ❌)"@
                },
            ],
            None => seq![],
        },
    }
}

pub fn environment_lines(facts: &Option<RepoFacts>) -> (r: Vec<String>)
    ensures
        string_views(r@) == environment_spec(*facts),
{
    let mut out: Vec<String> = Vec::new();
    match facts {
        None => {
            out.push(String::from_str("Project Root: Not in a git repository"));
        },
        Some(f) => {
            let mut root = String::from_str("Project Root: ");
            root.append(f.root.as_str());
            out.push(root);
            let mut kind = String::from_str("Repository Type: ");
            kind.append(if f.is_bare {
                "Bare"
            } else {
                "Normal"
            });
            out.push(kind);
            let mut home = String::from_str("WT Home: ");
            match &f.home {
                Some(h) => home.append(h.as_str()),
                None => home.append("Not found"),
            }
            out.push(home);
            match &f.home {
                Some(h) => {
                    let mut d = String::from_str(".wt Directory: ");
                    d.append(crate::paths::path_join(h.as_str(), ".wt").as_str());
                    d.append(if f.wt_dir_exists {
                        " (Exists)"
                    } else {
                        " (Not found ❌)"
                    });
                    out.push(d);
                },
                None => {},
            }
        },
    }
    assert(string_views(out@) =~= environment_spec(*facts));
    out
}

} // verus!
