use vstd::prelude::*;
use crate::text::{str_eq, string_views};

verus! {

/// The template written to `.wt/post-add`.
pub const POST_ADD_TEMPLATE: &'static str = r#"#!/bin/bash
# Post-add hook for easy-worktree
# This script is automatically executed after creating a new worktree
#
# Available environment variables:
#   WT_WORKTREE_PATH  - Path to the created worktree
#   WT_WORKTREE_NAME  - Name of the worktree
#   WT_BASE_DIR       - Path to the main repository directory
#   WT_BRANCH         - Branch name
#   WT_ACTION         - Action name (add)
#
# Example: Install dependencies and copy configuration files
#
# set -e
#
# echo "Initializing worktree: $WT_WORKTREE_NAME"
#
# # Install npm packages
# if [ -f package.json ]; then
#     npm install
# fi
#
# # Copy .env file
# if [ -f "$WT_BASE_DIR/.env.example" ]; then
#     cp "$WT_BASE_DIR/.env.example" .env
# fi
#
# echo "Setup completed!"
"#;

/// The template written to `.wt/pre-rm`.
pub const PRE_RM_TEMPLATE: &'static str = r#"#!/bin/bash
# Pre-rm hook for easy-worktree
# This script is automatically executed before a worktree is removed,
# while the worktree still exists. Keep it idempotent: it runs again
# when a removal is retried.
#
# Available environment variables:
#   WT_WORKTREE_PATH  - Path to the worktree being removed
#   WT_WORKTREE_NAME  - Name of the worktree
#   WT_BASE_DIR       - Path to the main repository directory
#   WT_BRANCH         - Branch name
#   WT_ACTION         - Action name (rm)
#
# Example: release resources created for this worktree
#
# set -e
#
# echo "Cleaning up worktree: $WT_WORKTREE_NAME"
"#;

/// The hooks `wt` knows: run after a worktree is added, and before one is removed.
#[derive(PartialEq, Eq, Structural, Clone, Copy)]
pub enum Hook {
    PostAdd,
    PreRm,
}

/// The hook's file name under `.wt/`.
pub open spec fn hook_file_spec(h: Hook) -> Seq<char> {
    match h {
        Hook::PostAdd => "post-add"@,
        Hook::PreRm => "pre-rm"@,
    }
}

pub fn hook_file(h: Hook) -> (r: &'static str)
    ensures
        r@ == hook_file_spec(h),
{
    match h {
        Hook::PostAdd => "post-add",
        Hook::PreRm => "pre-rm",
    }
}

/// The hook a name given to `wt hook` names.
pub fn hook_named(name: &str) -> (r: Option<Hook>)
    ensures
        r == (if name@ == "post-add"@ {
            Some(Hook::PostAdd)
        } else if name@ == "pre-rm"@ {
            Some(Hook::PreRm)
        } else {
            None
        }),
{
    if str_eq(name, "post-add") {
        Some(Hook::PostAdd)
    } else if str_eq(name, "pre-rm") {
        Some(Hook::PreRm)
    } else {
        None
    }
}

/// The hook's template.
pub fn hook_template(h: Hook) -> (r: &'static str)
    ensures
        r@ == match h {
            Hook::PostAdd => POST_ADD_TEMPLATE@,
            Hook::PreRm => PRE_RM_TEMPLATE@,
        },
{
    match h {
        Hook::PostAdd => POST_ADD_TEMPLATE,
        Hook::PreRm => PRE_RM_TEMPLATE,
    }
}

/// The environment a hook runs with: the worktree's path and name, the repository's
/// directory, the branch (the worktree's name when it has none) and the action.
pub open spec fn hook_env_spec(h: Hook, path: Seq<char>, name: Seq<char>, base_dir: Seq<char>, branch: Option<Seq<char>>) -> Seq<(Seq<char>, Seq<char>)> {
    seq![
        ("WT_WORKTREE_PATH"@, path),
        ("WT_WORKTREE_NAME"@, name),
        ("WT_BASE_DIR"@, base_dir),
        ("WT_BRANCH"@, match branch {
            Some(b) => b,
            None => name,
        }),
        ("WT_ACTION"@, match h {
            Hook::PostAdd => "add"@,
            Hook::PreRm => "rm"@,
        }),
    ]
}

pub open spec fn env_views(v: Seq<(String, String)>) -> Seq<(Seq<char>, Seq<char>)> {
    Seq::new(v.len(), |i: int| (v[i].0@, v[i].1@))
}

pub fn hook_env(h: Hook, path: &str, name: &str, base_dir: &str, branch: Option<&str>) -> (r: Vec<(String, String)>)
    ensures
        env_views(r@) == hook_env_spec(h, path@, name@, base_dir@, match branch {
            Some(b) => Some(b@),
            None => None,
        }),
{
    let mut v: Vec<(String, String)> = Vec::new();
    v.push((String::from_str("WT_WORKTREE_PATH"), String::from_str(path)));
    v.push((String::from_str("WT_WORKTREE_NAME"), String::from_str(name)));
    v.push((String::from_str("WT_BASE_DIR"), String::from_str(base_dir)));
    let b = match branch {
        Some(b) => b,
        None => name,
    };
    v.push((String::from_str("WT_BRANCH"), String::from_str(b)));
    let action = match h {
        Hook::PostAdd => "add",
        Hook::PreRm => "rm",
    };
    v.push((String::from_str("WT_ACTION"), String::from_str(action)));
    assert(env_views(v@) =~= hook_env_spec(h, path@, name@, base_dir@, match branch {
        Some(b) => Some(b@),
        None => None,
    }));
    v
}

/// A hook file runs only when some execute bit of its mode is set.
pub fn is_executable_mode(mode: u32) -> (r: bool)
    ensures
        r == (mode & 0o111 != 0),
{
    mode & 0o111 != 0
}

/// The entries `wt init` makes sure the repository's `.gitignore` lists.
pub fn root_ignores(worktrees_dir: &str) -> (r: Vec<String>)
    ensures
        string_views(r@) == seq![".wt/"@, worktrees_dir@ + "/"@],
{
    let mut w = String::from_str(worktrees_dir);
    w.append("/");
    let mut v: Vec<String> = Vec::new();
    v.push(String::from_str(".wt/"));
    v.push(w);
    assert(string_views(v@) =~= seq![".wt/"@, worktrees_dir@ + "/"@]);
    v
}

/// The entries `.wt/.gitignore` must list: the local hooks and settings and the record of
/// the last selection.
pub fn wt_ignores() -> (r: Vec<String>)
    ensures
        string_views(r@) == seq!["post-add.local"@, "pre-rm.local"@, "config.local.toml"@, "last_selection"@],
{
    let v = crate::words::v4("post-add.local", "pre-rm.local", "config.local.toml", "last_selection");
    v
}

/// The text of the README written into `.wt/`.
pub fn wt_readme(japanese: bool) -> (r: &'static str)
    ensures
        r@ == (if japanese {
            "# easy-worktree フック\n\nこのディレクトリには easy-worktree の設定と post-add フックが格納されています。\n"@
        } else {
            "# easy-worktree Hooks\n\nThis directory contains easy-worktree configuration and post-add hooks.\n"@
        }),
{
    if japanese {
        "# easy-worktree フック\n\nこのディレクトリには easy-worktree の設定と post-add フックが格納されています。\n"
    } else {
        "# easy-worktree Hooks\n\nThis directory contains easy-worktree configuration and post-add hooks.\n"
    }
}


/// The line `wt hook` shows for a hook: its file name, its path, and whether it is there.
pub open spec fn hook_state_spec(h: Hook, path: Seq<char>, present: bool) -> Seq<char> {
    hook_file_spec(h) + ": "@ + path + " ("@ + (if present {
        "present"@
    } else {
        "missing"@
    }) + ")"@
}

pub fn hook_state_line(h: Hook, path: &str, present: bool) -> (r: String)
    ensures
        r@ == hook_state_spec(h, path@, present),
{
    let mut s = String::from_str(hook_file(h));
    s.append(": ");
    s.append(path);
    s.append(" (");
    s.append(if present {
        "present"
    } else {
        "missing"
    });
    s.append(")");
    s
}

/// The line shown before a hook runs.
pub open spec fn running_hook_spec(h: Hook, path: Seq<char>, japanese: bool) -> Seq<char> {
    match h {
        Hook::PostAdd => crate::messages::msg_spec("running_hook"@, seq![path], japanese),
        Hook::PreRm => "Running pre-rm hook: "@ + path,
    }
}

pub fn running_hook_line(h: Hook, path: &str, japanese: bool) -> (r: String)
    ensures
        r@ == running_hook_spec(h, path@, japanese),
{
    match h {
        Hook::PostAdd => crate::messages::m1("running_hook", path, japanese),
        Hook::PreRm => {
            let mut s = String::from_str("Running pre-rm hook: ");
            s.append(path);
            s
        },
    }
}

} // verus!
