use vstd::prelude::*;
use crate::text::{chars_eq, chars_of, replace_first, replace_first_chars, string_of, string_views};

verus! {

/// The message templates, in English and in Japanese; `("", "")` for an unknown key.
pub open spec fn template_of(key: Seq<char>) -> (Seq<char>, Seq<char>) {
    if key == "error"@ {
        ("Error: {}"@, "エラー: {}"@)
    } else if key == "usage"@ {
        ("Usage: wt clone [--bare] <repository_url> [dest_dir]"@, "使用方法: wt clone [--bare] <repository_url> [dest_dir]"@)
    } else if key == "usage_add"@ {
        ("Usage: wt add (ad) <work_name> [<base_branch>] [--skip-setup|--no-setup] [--select [<command>...]]"@, "使用方法: wt add (ad) <作業名> [<base_branch>] [--skip-setup|--no-setup] [--select [<コマンド>...]]"@)
    } else if key == "usage_select"@ {
        ("Usage: wt select (sl) [<name>|-] [<command>...]"@, "使用方法: wt select (sl) [<名前>|-] [<コマンド>...]"@)
    } else if key == "usage_diff"@ {
        ("Usage: wt diff (df) [<name>] [args...]"@, "使用方法: wt diff (df) [<名前>] [引数...]"@)
    } else if key == "usage_config"@ {
        ("Usage: wt config [--global|--local] [<key> [<value>]]"@, "使用方法: wt config [--global|--local] [<キー> [<値>]]"@)
    } else if key == "usage_list"@ {
        ("Usage: wt list (ls) [--pr] [--quiet|-q] [--days N] [--merged] [--closed] [--all] [--sort created|last-commit|name|branch] [--asc|--desc]"@, "使用方法: wt list (ls) [--pr] [--quiet|-q] [--days N] [--merged] [--closed] [--all] [--sort created|last-commit|name|branch] [--asc|--desc]"@)
    } else if key == "usage_run"@ {
        ("Usage: wt run <name> <command>..."@, "使用方法: wt run <名前> <コマンド>..."@)
    } else if key == "usage_rm"@ {
        ("Usage: wt rm <work_name>"@, "使用方法: wt rm <作業名>"@)
    } else if key == "base_not_found"@ {
        ("Main repository directory not found"@, "メインリポジトリのディレクトリが見つかりません"@)
    } else if key == "run_in_wt_dir"@ {
        ("Please run inside WT_<repository_name>/ directory"@, "WT_<repository_name>/ ディレクトリ内で実行してください"@)
    } else if key == "wt_home_not_found"@ {
        ("No non-bare worktree found for this bare repository. Create a base-branch worktree first."@, "この bare リポジトリで利用可能な non-bare worktree が見つかりません。先にベースブランチの worktree を作成してください。"@)
    } else if key == "suggest_init"@ {
        ("Initialize wt config with: {}"@, "wt 設定を初期化: {}"@)
    } else if key == "did_you_mean"@ {
        ("Did you mean: {}"@, "もしかして: {}"@)
    } else if key == "available_worktrees"@ {
        ("Available worktrees: {}"@, "利用可能な worktree: {}"@)
    } else if key == "already_exists"@ {
        ("{} already exists"@, "{} はすでに存在します"@)
    } else if key == "cloning"@ {
        ("Cloning: {} -> {}"@, "クローン中: {} -> {}"@)
    } else if key == "completed_clone"@ {
        ("Completed: cloned to {}"@, "完了: {} にクローンしました"@)
    } else if key == "not_git_repo"@ {
        ("Current directory is not a git repository"@, "現在のディレクトリは git リポジトリではありません"@)
    } else if key == "fetching"@ {
        ("Fetching latest information from remote..."@, "リモートから最新情報を取得中..."@)
    } else if key == "creating_worktree"@ {
        ("Creating worktree: {}"@, "worktree を作成中: {}"@)
    } else if key == "completed_worktree"@ {
        ("Completed: created worktree at {}"@, "完了: {} に worktree を作成しました"@)
    } else if key == "removing_worktree"@ {
        ("Removing worktree: {}"@, "worktree を削除中: {}"@)
    } else if key == "completed_remove"@ {
        ("Completed: removed {}"@, "完了: {} を削除しました"@)
    } else if key == "creating_branch"@ {
        ("Creating new branch '{}' from '{}'"@, "ブランチ '{}' を '{}' から作成しています"@)
    } else if key == "default_branch_not_found"@ {
        ("Could not find default branch (main/master)"@, "デフォルトブランチ (main/master) が見つかりません"@)
    } else if key == "running_hook"@ {
        ("Running post-add hook: {}"@, "post-add hook を実行中: {}"@)
    } else if key == "hook_not_executable"@ {
        ("Warning: hook is not executable: {}"@, "警告: hook が実行可能ではありません: {}"@)
    } else if key == "hook_failed"@ {
        ("Warning: hook exited with code {}"@, "警告: hook が終了コード {} で終了しました"@)
    } else if key == "usage_clean"@ {
        ("Usage: wt clean (cl) [--days N] [--merged] [--closed] [--all] [--yes|-y]"@, "使用方法: wt clean (cl) [--days N] [--merged] [--closed] [--all] [--yes|-y]"@)
    } else if key == "no_clean_targets"@ {
        ("No worktrees to clean"@, "クリーンアップ対象の worktree がありません"@)
    } else if key == "clean_confirm"@ {
        ("Remove {} worktree(s)? [y/N]: "@, "{} 個の worktree を削除しますか？ [y/N]: "@)
    } else if key == "worktree_name"@ {
        ("Worktree"@, "Worktree"@)
    } else if key == "branch_name"@ {
        ("Branch"@, "ブランチ"@)
    } else if key == "created_at"@ {
        ("Created"@, "作成日時"@)
    } else if key == "last_commit"@ {
        ("Last Commit"@, "最終コミット"@)
    } else if key == "changes_label"@ {
        ("Changes"@, "変更"@)
    } else if key == "usage_pr"@ {
        ("Usage: wt pr add <number>"@, "使用方法: wt pr add <number>"@)
    } else if key == "usage_setup"@ {
        ("Usage: wt setup (su)"@, "使用方法: wt setup (su)"@)
    } else if key == "usage_stash"@ {
        ("Usage: wt stash (st) <work_name> [<base_branch>]"@, "使用方法: wt stash (st) <work_name> [<base_branch>]"@)
    } else if key == "usage_completion"@ {
        ("Usage: wt completion <bash|zsh>"@, "使用方法: wt completion <bash|zsh>"@)
    } else if key == "stashing_changes"@ {
        ("Stashing local changes..."@, "ローカルの変更をスタッシュ中..."@)
    } else if key == "popping_stash"@ {
        ("Moving changes to new worktree..."@, "変更を新しい worktree に移動中..."@)
    } else if key == "nothing_to_stash"@ {
        ("No local changes to stash."@, "スタッシュする変更がありません"@)
    } else if key == "select_switched"@ {
        ("Switched worktree to: {}"@, "作業ディレクトリを切り替えました: {}"@)
    } else if key == "select_not_found"@ {
        ("Worktree not found: {}"@, "worktree が見つかりません: {}"@)
    } else if key == "select_no_last"@ {
        ("No previous selection found"@, "以前の選択が見つかりません"@)
    } else if key == "setting_up"@ {
        ("Setting up: {} -> {}"@, "セットアップ中: {} -> {}"@)
    } else if key == "completed_setup"@ {
        ("Completed setup of {} files"@, "{} 個のファイルをセットアップしました"@)
    } else if key == "using_setup_source"@ {
        ("Using setup source: {}"@, "セットアップコピー元: {}"@)
    } else if key == "setup_source_not_found"@ {
        ("Setup source directory not found. Skipping file copy."@, "セットアップコピー元が見つからないため、ファイルコピーをスキップします。"@)
    } else if key == "suggest_setup"@ {
        ("Some setup files are missing. Run 'wt setup' to initialize this worktree."@, "一部のセットアップファイルが不足しています。'wt setup' を実行して初期化してください。"@)
    } else if key == "nesting_error"@ {
        ("Error: Already in a wt subshell ({}). Please 'exit' before switching."@, "エラー: すでに wt のサブシェル ({}) 内にいます。切り替える前に 'exit' してください。"@)
    } else if key == "jump_instruction"@ {
        ("Jumping to '{}' ({}). Type 'exit' or Ctrl-D to return."@, "'{}' ({}) にジャンプします。戻るには 'exit' または Ctrl-D を入力してください。"@)
    } else {
        (""@, ""@)
    }
}

/// `template`: the English and Japanese templates of a message key.
pub fn template(key: &str) -> (r: (&'static str, &'static str))
    ensures
        r.0@ == template_of(key@).0,
        r.1@ == template_of(key@).1,
{
    let k = chars_of(key);
    if chars_eq(&k, &chars_of("error")) {
        return ("Error: {}", "エラー: {}");
    }
    if chars_eq(&k, &chars_of("usage")) {
        return ("Usage: wt clone [--bare] <repository_url> [dest_dir]", "使用方法: wt clone [--bare] <repository_url> [dest_dir]");
    }
    if chars_eq(&k, &chars_of("usage_add")) {
        return ("Usage: wt add (ad) <work_name> [<base_branch>] [--skip-setup|--no-setup] [--select [<command>...]]", "使用方法: wt add (ad) <作業名> [<base_branch>] [--skip-setup|--no-setup] [--select [<コマンド>...]]");
    }
    if chars_eq(&k, &chars_of("usage_select")) {
        return ("Usage: wt select (sl) [<name>|-] [<command>...]", "使用方法: wt select (sl) [<名前>|-] [<コマンド>...]");
    }
    if chars_eq(&k, &chars_of("usage_diff")) {
        return ("Usage: wt diff (df) [<name>] [args...]", "使用方法: wt diff (df) [<名前>] [引数...]");
    }
    if chars_eq(&k, &chars_of("usage_config")) {
        return ("Usage: wt config [--global|--local] [<key> [<value>]]", "使用方法: wt config [--global|--local] [<キー> [<値>]]");
    }
    if chars_eq(&k, &chars_of("usage_list")) {
        return ("Usage: wt list (ls) [--pr] [--quiet|-q] [--days N] [--merged] [--closed] [--all] [--sort created|last-commit|name|branch] [--asc|--desc]", "使用方法: wt list (ls) [--pr] [--quiet|-q] [--days N] [--merged] [--closed] [--all] [--sort created|last-commit|name|branch] [--asc|--desc]");
    }
    if chars_eq(&k, &chars_of("usage_run")) {
        return ("Usage: wt run <name> <command>...", "使用方法: wt run <名前> <コマンド>...");
    }
    if chars_eq(&k, &chars_of("usage_rm")) {
        return ("Usage: wt rm <work_name>", "使用方法: wt rm <作業名>");
    }
    if chars_eq(&k, &chars_of("base_not_found")) {
        return ("Main repository directory not found", "メインリポジトリのディレクトリが見つかりません");
    }
    if chars_eq(&k, &chars_of("run_in_wt_dir")) {
        return ("Please run inside WT_<repository_name>/ directory", "WT_<repository_name>/ ディレクトリ内で実行してください");
    }
    if chars_eq(&k, &chars_of("wt_home_not_found")) {
        return ("No non-bare worktree found for this bare repository. Create a base-branch worktree first.", "この bare リポジトリで利用可能な non-bare worktree が見つかりません。先にベースブランチの worktree を作成してください。");
    }
    if chars_eq(&k, &chars_of("suggest_init")) {
        return ("Initialize wt config with: {}", "wt 設定を初期化: {}");
    }
    if chars_eq(&k, &chars_of("did_you_mean")) {
        return ("Did you mean: {}", "もしかして: {}");
    }
    if chars_eq(&k, &chars_of("available_worktrees")) {
        return ("Available worktrees: {}", "利用可能な worktree: {}");
    }
    if chars_eq(&k, &chars_of("already_exists")) {
        return ("{} already exists", "{} はすでに存在します");
    }
    if chars_eq(&k, &chars_of("cloning")) {
        return ("Cloning: {} -> {}", "クローン中: {} -> {}");
    }
    if chars_eq(&k, &chars_of("completed_clone")) {
        return ("Completed: cloned to {}", "完了: {} にクローンしました");
    }
    if chars_eq(&k, &chars_of("not_git_repo")) {
        return ("Current directory is not a git repository", "現在のディレクトリは git リポジトリではありません");
    }
    if chars_eq(&k, &chars_of("fetching")) {
        return ("Fetching latest information from remote...", "リモートから最新情報を取得中...");
    }
    if chars_eq(&k, &chars_of("creating_worktree")) {
        return ("Creating worktree: {}", "worktree を作成中: {}");
    }
    if chars_eq(&k, &chars_of("completed_worktree")) {
        return ("Completed: created worktree at {}", "完了: {} に worktree を作成しました");
    }
    if chars_eq(&k, &chars_of("removing_worktree")) {
        return ("Removing worktree: {}", "worktree を削除中: {}");
    }
    if chars_eq(&k, &chars_of("completed_remove")) {
        return ("Completed: removed {}", "完了: {} を削除しました");
    }
    if chars_eq(&k, &chars_of("creating_branch")) {
        return ("Creating new branch '{}' from '{}'", "ブランチ '{}' を '{}' から作成しています");
    }
    if chars_eq(&k, &chars_of("default_branch_not_found")) {
        return ("Could not find default branch (main/master)", "デフォルトブランチ (main/master) が見つかりません");
    }
    if chars_eq(&k, &chars_of("running_hook")) {
        return ("Running post-add hook: {}", "post-add hook を実行中: {}");
    }
    if chars_eq(&k, &chars_of("hook_not_executable")) {
        return ("Warning: hook is not executable: {}", "警告: hook が実行可能ではありません: {}");
    }
    if chars_eq(&k, &chars_of("hook_failed")) {
        return ("Warning: hook exited with code {}", "警告: hook が終了コード {} で終了しました");
    }
    if chars_eq(&k, &chars_of("usage_clean")) {
        return ("Usage: wt clean (cl) [--days N] [--merged] [--closed] [--all] [--yes|-y]", "使用方法: wt clean (cl) [--days N] [--merged] [--closed] [--all] [--yes|-y]");
    }
    if chars_eq(&k, &chars_of("no_clean_targets")) {
        return ("No worktrees to clean", "クリーンアップ対象の worktree がありません");
    }
    if chars_eq(&k, &chars_of("clean_confirm")) {
        return ("Remove {} worktree(s)? [y/N]: ", "{} 個の worktree を削除しますか？ [y/N]: ");
    }
    if chars_eq(&k, &chars_of("worktree_name")) {
        return ("Worktree", "Worktree");
    }
    if chars_eq(&k, &chars_of("branch_name")) {
        return ("Branch", "ブランチ");
    }
    if chars_eq(&k, &chars_of("created_at")) {
        return ("Created", "作成日時");
    }
    if chars_eq(&k, &chars_of("last_commit")) {
        return ("Last Commit", "最終コミット");
    }
    if chars_eq(&k, &chars_of("changes_label")) {
        return ("Changes", "変更");
    }
    if chars_eq(&k, &chars_of("usage_pr")) {
        return ("Usage: wt pr add <number>", "使用方法: wt pr add <number>");
    }
    if chars_eq(&k, &chars_of("usage_setup")) {
        return ("Usage: wt setup (su)", "使用方法: wt setup (su)");
    }
    if chars_eq(&k, &chars_of("usage_stash")) {
        return ("Usage: wt stash (st) <work_name> [<base_branch>]", "使用方法: wt stash (st) <work_name> [<base_branch>]");
    }
    if chars_eq(&k, &chars_of("usage_completion")) {
        return ("Usage: wt completion <bash|zsh>", "使用方法: wt completion <bash|zsh>");
    }
    if chars_eq(&k, &chars_of("stashing_changes")) {
        return ("Stashing local changes...", "ローカルの変更をスタッシュ中...");
    }
    if chars_eq(&k, &chars_of("popping_stash")) {
        return ("Moving changes to new worktree...", "変更を新しい worktree に移動中...");
    }
    if chars_eq(&k, &chars_of("nothing_to_stash")) {
        return ("No local changes to stash.", "スタッシュする変更がありません");
    }
    if chars_eq(&k, &chars_of("select_switched")) {
        return ("Switched worktree to: {}", "作業ディレクトリを切り替えました: {}");
    }
    if chars_eq(&k, &chars_of("select_not_found")) {
        return ("Worktree not found: {}", "worktree が見つかりません: {}");
    }
    if chars_eq(&k, &chars_of("select_no_last")) {
        return ("No previous selection found", "以前の選択が見つかりません");
    }
    if chars_eq(&k, &chars_of("setting_up")) {
        return ("Setting up: {} -> {}", "セットアップ中: {} -> {}");
    }
    if chars_eq(&k, &chars_of("completed_setup")) {
        return ("Completed setup of {} files", "{} 個のファイルをセットアップしました");
    }
    if chars_eq(&k, &chars_of("using_setup_source")) {
        return ("Using setup source: {}", "セットアップコピー元: {}");
    }
    if chars_eq(&k, &chars_of("setup_source_not_found")) {
        return ("Setup source directory not found. Skipping file copy.", "セットアップコピー元が見つからないため、ファイルコピーをスキップします。");
    }
    if chars_eq(&k, &chars_of("suggest_setup")) {
        return ("Some setup files are missing. Run 'wt setup' to initialize this worktree.", "一部のセットアップファイルが不足しています。'wt setup' を実行して初期化してください。");
    }
    if chars_eq(&k, &chars_of("nesting_error")) {
        return ("Error: Already in a wt subshell ({}). Please 'exit' before switching.", "エラー: すでに wt のサブシェル ({}) 内にいます。切り替える前に 'exit' してください。");
    }
    if chars_eq(&k, &chars_of("jump_instruction")) {
        return ("Jumping to '{}' ({}). Type 'exit' or Ctrl-D to return.", "'{}' ({}) にジャンプします。戻るには 'exit' または Ctrl-D を入力してください。");
    }
    ("", "")
}

} // verus!

verus! {

/// The placeholder of a template.
pub open spec fn slot() -> Seq<char> {
    seq!['{', '}']
}

/// `format_template`: each argument in turn replaces the first `{}` left in the text
/// (an argument that itself holds `{}` can be filled by a later one).
pub open spec fn fill_template(t: Seq<char>, args: Seq<Seq<char>>) -> Seq<char>
    decreases args.len(),
{
    if args.len() == 0 {
        t
    } else {
        fill_template(replace_first(t, slot(), args[0]), args.drop_first())
    }
}

/// `format_template`.
pub fn format_template(template: &str, args: &Vec<String>) -> (r: String)
    ensures
        r@ == fill_template(template@, string_views(args@)),
{
    let mut out = chars_of(template);
    let mut sl: Vec<char> = Vec::new();
    sl.push('{');
    sl.push('}');
    assert(sl@ =~= slot());
    let ghost a = string_views(args@);
    assert(a.skip(0) =~= a);
    for i in 0..args.len()
        invariant
            sl@ == slot(),
            a == string_views(args@),
            fill_template(template@, a) == fill_template(out@, a.skip(i as int)),
    {
        assert(a.skip(i as int).drop_first() =~= a.skip(i + 1));
        assert(a.skip(i as int)[0] == args@[i as int]@);
        let arg = chars_of(args[i].as_str());
        out = replace_first_chars(&out, &sl, &arg);
    }
    assert(a.skip(args.len() as int) =~= Seq::<Seq<char>>::empty());
    string_of(&out)
}

/// The template a message uses: the key itself when it has none.
pub open spec fn chosen_template(key: Seq<char>, japanese: bool) -> Seq<char> {
    let (en, ja) = template_of(key);
    if en.len() == 0 {
        key
    } else if japanese {
        ja
    } else {
        en
    }
}

/// `msg`: the message for `key`, in Japanese or English, with its arguments filled in.
pub open spec fn msg_spec(key: Seq<char>, args: Seq<Seq<char>>, japanese: bool) -> Seq<char> {
    fill_template(chosen_template(key, japanese), args)
}

/// `msg`.
pub fn msg(key: &str, args: &Vec<String>, japanese: bool) -> (r: String)
    ensures
        r@ == msg_spec(key@, string_views(args@), japanese),
{
    let (en, ja) = template(key);
    let t = if en.is_empty() {
        key
    } else if japanese {
        ja
    } else {
        en
    };
    format_template(t, args)
}

/// `m0`: a message without arguments.
pub fn m0(key: &str, japanese: bool) -> (r: String)
    ensures
        r@ == msg_spec(key@, seq![], japanese),
{
    let args: Vec<String> = Vec::new();
    assert(string_views(args@) =~= Seq::<Seq<char>>::empty());
    msg(key, &args, japanese)
}

/// `m1`: a message with one argument.
pub fn m1(key: &str, a: &str, japanese: bool) -> (r: String)
    ensures
        r@ == msg_spec(key@, seq![a@], japanese),
{
    let mut args: Vec<String> = Vec::new();
    args.push(crate::config::owned(a));
    assert(string_views(args@) =~= seq![a@]);
    msg(key, &args, japanese)
}

/// `m2`: a message with two arguments.
pub fn m2(key: &str, a: &str, b: &str, japanese: bool) -> (r: String)
    ensures
        r@ == msg_spec(key@, seq![a@, b@], japanese),
{
    let mut args: Vec<String> = Vec::new();
    args.push(crate::config::owned(a));
    args.push(crate::config::owned(b));
    assert(string_views(args@) =~= seq![a@, b@]);
    msg(key, &args, japanese)
}

/// `fatal_error`: the line printed before `wt` exits with status 1.
pub fn fatal_error(message: &str, japanese: bool) -> (r: String)
    ensures
        r@ == msg_spec("error"@, seq![message@], japanese),
{
    m1("error", message, japanese)
}

/// Whether messages are in Japanese, from the value of `LANG`: it contains `ja` in any letter case.
/// (Lower-casing in Unicode yields `j` or `a` only from `J`, `j`, `A`, `a`, so comparing
/// ASCII-lowered characters decides it.)
pub open spec fn is_japanese_spec(lang: Seq<char>) -> bool {
    exists|i: int|
        0 <= i && i + 1 < lang.len() && crate::text::ascii_lower(#[trigger] lang[i]) == 'j'
            && crate::text::ascii_lower(lang[i + 1]) == 'a'
}

/// Whether messages are in Japanese, given the value of `LANG`.
pub fn is_japanese_lang(lang: &str) -> (r: bool)
    ensures
        r == is_japanese_spec(lang@),
{
    let c = chars_of(lang);
    if c.len() < 2 {
        return false;
    }
    let mut i: usize = 0;
    while i < c.len() - 1
        invariant
            c.len() >= 2,
            i <= c.len() - 1,
            c@ == lang@,
            forall|k: int|
                0 <= k < i ==> !(crate::text::ascii_lower(#[trigger] c@[k]) == 'j'
                    && crate::text::ascii_lower(c@[k + 1]) == 'a'),
        decreases c.len() - i,
    {
        if crate::text::to_ascii_lower(c[i]) == 'j' && crate::text::to_ascii_lower(c[i + 1]) == 'a' {
            return true;
        }
        i = i + 1;
    }
    false
}

/// How to set the project up.
pub open spec fn init_suggestion_spec(git_dir: Option<Seq<char>>, japanese: bool) -> Seq<char> {
    match git_dir {
        Some(d) => msg_spec("suggest_init"@, seq!["wt --git-dir="@ + d + " init"@], japanese),
        None => msg_spec("suggest_init"@, seq!["wt init"@], japanese),
    }
}

/// The text that suggests how to set the project up.
pub fn init_suggestion(git_dir: Option<&str>, japanese: bool) -> (r: String)
    ensures
        r@ == init_suggestion_spec(
            match git_dir {
                Some(d) => Some(d@),
                None => None,
            },
            japanese,
        ),
{
    match git_dir {
        Some(d) => {
            let mut s = crate::config::owned("wt --git-dir=");
            s.append(d);
            s.append(" init");
            m1("suggest_init", s.as_str(), japanese)
        },
        None => m1("suggest_init", "wt init", japanese),
    }
}

/// The version line.
pub fn version_line(version: &str) -> (r: String)
    ensures
        r@ == "easy-worktree version "@ + version@,
{
    let mut s = crate::config::owned("easy-worktree version ");
    s.append(version);
    s
}

} // verus!

verus! {

/// `s` padded with spaces to `n` characters (`{:<n}`).
pub open spec fn pad_right(s: Seq<char>, n: nat) -> Seq<char> {
    if s.len() >= n {
        s
    } else {
        s + Seq::new((n - s.len()) as nat, |i: int| ' ')
    }
}

/// `s` padded with spaces to `n` characters.
pub fn pad_right_exec(s: &str, n: usize) -> (r: String)
    ensures
        r@ == pad_right(s@, n as nat),
{
    let mut c = chars_of(s);
    let len = c.len();
    if len >= n {
        return string_of(&c);
    }
    let ghost c0 = c@;
    let mut k: usize = len;
    while k < n
        invariant
            len <= k <= n,
            len == c0.len(),
            c@ == c0 + Seq::new((k - len) as nat, |i: int| ' '),
        decreases n - k,
    {
        c.push(' ');
        k = k + 1;
        assert(c@ =~= c0 + Seq::new((k - len) as nat, |i: int| ' '));
    }
    string_of(&c)
}

/// One line of the help: the command, padded, and what it does.
pub open spec fn entry_line(e: (Seq<char>, Seq<char>)) -> Seq<char> {
    "  "@ + pad_right(e.0, 55) + " - "@ + e.1 + "\n"@
}

/// The help lines of a list of entries.
pub open spec fn entries_text(es: Seq<(Seq<char>, Seq<char>)>) -> Seq<char>
    decreases es.len(),
{
    if es.len() == 0 {
        seq![]
    } else {
        entries_text(es.drop_last()) + entry_line(es.last())
    }
}

/// The text views of pairs of string slices.
pub open spec fn pair_views(v: Seq<(&str, &str)>) -> Seq<(Seq<char>, Seq<char>)> {
    Seq::new(v.len(), |i: int| (v[i].0@, v[i].1@))
}

/// The commands the help lists, with what each does.
pub open spec fn help_commands(japanese: bool) -> Seq<(Seq<char>, Seq<char>)> {
    if japanese {
        seq![
            ("clone (cn) [--bare] <repository_url> [dest_dir]"@, "リポジトリをクローン"@),
            ("init (in)"@, "既存リポジトリをメインリポジトリとして構成"@),
            ("add (ad) [<作業名> [<base_branch>]] [--skip-setup|--no-setup] [--skip-hook|--no-hook] [--select [<コマンド>...]]"@, "worktree を追加"@),
            ("select (se, sl) [<作業名>|-] [<コマンド>...]"@, "作業ディレクトリを切り替え（fzf対応）"@),
            ("list (li, ls) [--pr] [--quiet|-q] [--days N] [--merged] [--closed] [--all] [--sort ...] [--asc|--desc]"@, "worktree 一覧を表示"@),
            ("diff (di, df) [<作業名>] [引数...]"@, "変更を表示 (git diff)"@),
            ("config (cf) [<キー> [<値>]] [--global|--local]"@, "設定の取得/設定"@),
            ("co/checkout <作業名>"@, "worktree のパスを表示"@),
            ("current (cu, cur)"@, "現在の worktree 名を表示"@),
            ("stash (st) <作業名> [<base_branch>]"@, "現在の変更をスタッシュして新規 worktree に移動"@),
            ("pr add <番号>"@, "GitHub PR を取得して worktree を作成/パス表示"@),
            ("rm/remove [<作業名>] [-f|--force] [--skip-hook|--no-hook]"@, "worktree を削除"@),
            ("clean (cl) [--days N] [--merged] [--closed] [--all] [--yes|-y] [--skip-hook|--no-hook]"@, "不要な worktree を削除"@),
            ("setup (su)"@, "作業ディレクトリを初期化（ファイルコピー・フック実行）"@),
            ("hook (ho) [<フック名> [<作業名>]]"@, "フックだけを実行"@),
            ("run (ru) <作業名> <コマンド>..."@, "worktree 内でコマンドを実行"@),
            ("doctor (dr)"@, "システム情報と環境の確認"@),
            ("completion (cm) <bash|zsh>"@, "シェル補完スクリプトを出力"@),
        ]
    } else {
        seq![
            ("clone (cn) [--bare] <repository_url> [dest_dir]"@, "Clone a repository"@),
            ("init (in)"@, "Configure existing repository as main"@),
            ("add (ad) [<work_name> [<base_branch>]] [--skip-setup|--no-setup] [--skip-hook|--no-hook] [--select [<command>...]]"@, "Add a worktree"@),
            ("select (se, sl) [<name>|-] [<command>...]"@, "Switch worktree selection (fzf support)"@),
            ("list (li, ls) [--pr] [--quiet|-q] [--days N] [--merged] [--closed] [--all] [--sort ...] [--asc|--desc]"@, "List worktrees"@),
            ("diff (di, df) [<name>] [args...]"@, "Show changes (git diff)"@),
            ("config (cf) [<key> [<value>]] [--global|--local]"@, "Get/Set configuration"@),
            ("co/checkout <work_name>"@, "Show path to a worktree"@),
            ("current (cu, cur)"@, "Show current worktree name"@),
            ("stash (st) <work_name> [<base_branch>]"@, "Stash current changes and move to new worktree"@),
            ("pr add <number>"@, "Manage GitHub PRs as worktrees"@),
            ("rm/remove [<work_name>] [-f|--force] [--skip-hook|--no-hook]"@, "Remove a worktree"@),
            ("clean (cl) [--days N] [--merged] [--closed] [--all] [--yes|-y] [--skip-hook|--no-hook]"@, "Remove unused/merged worktrees"@),
            ("setup (su)"@, "Setup worktree (copy files and run hooks)"@),
            ("hook (ho) [<hook_name> [<work_name>]]"@, "Run a hook without the surrounding operation"@),
            ("run (ru) <name> <command>..."@, "Run a command inside a worktree"@),
            ("doctor (dr)"@, "Show system information and check environment"@),
            ("completion (cm) <bash|zsh>"@, "Print shell completion script"@),
        ]
    }
}

/// The global options the help lists.
pub open spec fn help_options(japanese: bool) -> Seq<(Seq<char>, Seq<char>)> {
    if japanese {
        seq![
            ("-h, --help"@, "このヘルプメッセージを表示"@),
            ("-v, --version"@, "バージョン情報を表示"@),
            ("-C <path>"@, "指定したディレクトリに移動して実行"@),
            ("--git-dir <path>"@, "Git ディレクトリを明示指定"@),
        ]
    } else {
        seq![
            ("-h, --help"@, "Show this help message"@),
            ("-v, --version"@, "Show version information"@),
            ("-C <path>"@, "Run as if wt was started in <path> instead of the current working directory"@),
            ("--git-dir <path>"@, "Explicitly set git directory"@),
        ]
    }
}

fn help_command_list(japanese: bool) -> (r: Vec<(&'static str, &'static str)>)
    ensures
        pair_views(r@) == help_commands(japanese),
{
    let mut v: Vec<(&'static str, &'static str)> = Vec::new();
    if japanese {
        v.push(("clone (cn) [--bare] <repository_url> [dest_dir]", "リポジトリをクローン"));
        v.push(("init (in)", "既存リポジトリをメインリポジトリとして構成"));
        v.push(("add (ad) [<作業名> [<base_branch>]] [--skip-setup|--no-setup] [--skip-hook|--no-hook] [--select [<コマンド>...]]", "worktree を追加"));
        v.push(("select (se, sl) [<作業名>|-] [<コマンド>...]", "作業ディレクトリを切り替え（fzf対応）"));
        v.push(("list (li, ls) [--pr] [--quiet|-q] [--days N] [--merged] [--closed] [--all] [--sort ...] [--asc|--desc]", "worktree 一覧を表示"));
        v.push(("diff (di, df) [<作業名>] [引数...]", "変更を表示 (git diff)"));
        v.push(("config (cf) [<キー> [<値>]] [--global|--local]", "設定の取得/設定"));
        v.push(("co/checkout <作業名>", "worktree のパスを表示"));
        v.push(("current (cu, cur)", "現在の worktree 名を表示"));
        v.push(("stash (st) <作業名> [<base_branch>]", "現在の変更をスタッシュして新規 worktree に移動"));
        v.push(("pr add <番号>", "GitHub PR を取得して worktree を作成/パス表示"));
        v.push(("rm/remove [<作業名>] [-f|--force] [--skip-hook|--no-hook]", "worktree を削除"));
        v.push(("clean (cl) [--days N] [--merged] [--closed] [--all] [--yes|-y] [--skip-hook|--no-hook]", "不要な worktree を削除"));
        v.push(("setup (su)", "作業ディレクトリを初期化（ファイルコピー・フック実行）"));
        v.push(("hook (ho) [<フック名> [<作業名>]]", "フックだけを実行"));
        v.push(("run (ru) <作業名> <コマンド>...", "worktree 内でコマンドを実行"));
        v.push(("doctor (dr)", "システム情報と環境の確認"));
        v.push(("completion (cm) <bash|zsh>", "シェル補完スクリプトを出力"));
        assert(pair_views(v@) =~= help_commands(true));
    } else {
        v.push(("clone (cn) [--bare] <repository_url> [dest_dir]", "Clone a repository"));
        v.push(("init (in)", "Configure existing repository as main"));
        v.push(("add (ad) [<work_name> [<base_branch>]] [--skip-setup|--no-setup] [--skip-hook|--no-hook] [--select [<command>...]]", "Add a worktree"));
        v.push(("select (se, sl) [<name>|-] [<command>...]", "Switch worktree selection (fzf support)"));
        v.push(("list (li, ls) [--pr] [--quiet|-q] [--days N] [--merged] [--closed] [--all] [--sort ...] [--asc|--desc]", "List worktrees"));
        v.push(("diff (di, df) [<name>] [args...]", "Show changes (git diff)"));
        v.push(("config (cf) [<key> [<value>]] [--global|--local]", "Get/Set configuration"));
        v.push(("co/checkout <work_name>", "Show path to a worktree"));
        v.push(("current (cu, cur)", "Show current worktree name"));
        v.push(("stash (st) <work_name> [<base_branch>]", "Stash current changes and move to new worktree"));
        v.push(("pr add <number>", "Manage GitHub PRs as worktrees"));
        v.push(("rm/remove [<work_name>] [-f|--force] [--skip-hook|--no-hook]", "Remove a worktree"));
        v.push(("clean (cl) [--days N] [--merged] [--closed] [--all] [--yes|-y] [--skip-hook|--no-hook]", "Remove unused/merged worktrees"));
        v.push(("setup (su)", "Setup worktree (copy files and run hooks)"));
        v.push(("hook (ho) [<hook_name> [<work_name>]]", "Run a hook without the surrounding operation"));
        v.push(("run (ru) <name> <command>...", "Run a command inside a worktree"));
        v.push(("doctor (dr)", "Show system information and check environment"));
        v.push(("completion (cm) <bash|zsh>", "Print shell completion script"));
        assert(pair_views(v@) =~= help_commands(false));
    }
    v
}

fn help_option_list(japanese: bool) -> (r: Vec<(&'static str, &'static str)>)
    ensures
        pair_views(r@) == help_options(japanese),
{
    let mut v: Vec<(&'static str, &'static str)> = Vec::new();
    if japanese {
        v.push(("-h, --help", "このヘルプメッセージを表示"));
        v.push(("-v, --version", "バージョン情報を表示"));
        v.push(("-C <path>", "指定したディレクトリに移動して実行"));
        v.push(("--git-dir <path>", "Git ディレクトリを明示指定"));
        assert(pair_views(v@) =~= help_options(true));
    } else {
        v.push(("-h, --help", "Show this help message"));
        v.push(("-v, --version", "Show version information"));
        v.push(("-C <path>", "Run as if wt was started in <path> instead of the current working directory"));
        v.push(("--git-dir <path>", "Explicitly set git directory"));
        assert(pair_views(v@) =~= help_options(false));
    }
    v
}

/// The heading of the help, up to the list of commands.
pub open spec fn help_heading(japanese: bool) -> Seq<char> {
    if japanese {
        "easy-worktree - Git worktree を簡単に管理するための CLI ツール\n\n使用方法:\n  wt <command> [options]\n\nコマンド:\n"@
    } else {
        "easy-worktree - Simple CLI tool for managing Git worktrees\n\nUsage:\n  wt <command> [options]\n\nCommands:\n"@
    }
}

/// The heading of the list of options.
pub open spec fn options_heading(japanese: bool) -> Seq<char> {
    if japanese {
        "\nオプション:\n"@
    } else {
        "\nOptions:\n"@
    }
}

/// The whole help text.
pub open spec fn help_spec(japanese: bool) -> Seq<char> {
    help_heading(japanese) + entries_text(help_commands(japanese)) + options_heading(japanese)
        + entries_text(help_options(japanese))
}

fn append_entries(out: &mut String, es: &Vec<(&'static str, &'static str)>)
    ensures
        final(out)@ == old(out)@ + entries_text(pair_views(es@)),
{
    let ghost o0 = out@;
    let ghost pv = pair_views(es@);
    assert(pv.take(0) =~= Seq::<(Seq<char>, Seq<char>)>::empty());
    assert(o0 + entries_text(pv.take(0)) =~= o0);
    for i in 0..es.len()
        invariant
            pv == pair_views(es@),
            out@ == o0 + entries_text(pv.take(i as int)),
    {
        let (c, d) = es[i];
        out.append("  ");
        let p = pad_right_exec(c, 55);
        out.append(p.as_str());
        out.append(" - ");
        out.append(d);
        out.append("\n");
        assert(pv.take(i + 1).drop_last() =~= pv.take(i as int));
        assert(pv.take(i + 1).last() == (c@, d@));
        assert(out@ =~= o0 + entries_text(pv.take(i + 1)));
    }
    assert(pv.take(es.len() as int) =~= pv);
}

/// The help text.
pub fn help_text(japanese: bool) -> (r: String)
    ensures
        r@ == help_spec(japanese),
{
    let mut out = if japanese {
        crate::config::owned("easy-worktree - Git worktree を簡単に管理するための CLI ツール\n\n使用方法:\n  wt <command> [options]\n\nコマンド:\n")
    } else {
        crate::config::owned("easy-worktree - Simple CLI tool for managing Git worktrees\n\nUsage:\n  wt <command> [options]\n\nCommands:\n")
    };
    let cmds = help_command_list(japanese);
    append_entries(&mut out, &cmds);
    if japanese {
        out.append("\nオプション:\n");
    } else {
        out.append("\nOptions:\n");
    }
    let opts = help_option_list(japanese);
    append_entries(&mut out, &opts);
    assert(out@ =~= help_spec(japanese));
    out
}

} // verus!
