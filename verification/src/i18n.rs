//! Display language and every user-facing message, in English and Japanese.
use vstd::prelude::*;
use vstd::string::*;

use crate::text::{ascii_lower_chars, ascii_lower_seq, chars_of, decimal, decimal_string, starts_with};

verus! {

/// Language of the user interface.
#[derive(Clone, Copy, Debug, PartialEq, Eq, Structural)]
pub enum Lang {
    En,
    Ja,
}

/// An explicit `CHIRA_LANG` value, compared without regard to ASCII case. The accepted
/// spellings are all ASCII, and no other character lowercases to an ASCII letter that
/// could complete them, so ASCII folding decides exactly as full Unicode lowercasing does.
pub open spec fn lang_override(v: Seq<char>) -> Option<Lang> {
    let l = ascii_lower_seq(v);
    if l == "ja"@ || l == "ja_jp"@ || l == "japanese"@ {
        Some(Lang::Ja)
    } else if l == "en"@ || l == "en_us"@ || l == "english"@ {
        Some(Lang::En)
    } else {
        None
    }
}

/// A POSIX locale value: one that starts with `ja` (any case) selects Japanese.
pub open spec fn locale_lang(v: Seq<char>) -> Lang {
    if starts_with(ascii_lower_seq(v), "ja"@) {
        Lang::Ja
    } else {
        Lang::En
    }
}

pub open spec fn opt_view(o: Option<&str>) -> Option<Seq<char>> {
    match o {
        Some(s) => Some(s@),
        None => None,
    }
}

/// The first non-empty locale value among `LC_ALL`, `LC_MESSAGES`, `LANG` decides; none means English.
pub open spec fn locale_choice(
    lc_all: Option<Seq<char>>,
    lc_messages: Option<Seq<char>>,
    lang_env: Option<Seq<char>>,
) -> Lang {
    if lc_all is Some && lc_all->0.len() > 0 {
        locale_lang(lc_all->0)
    } else if lc_messages is Some && lc_messages->0.len() > 0 {
        locale_lang(lc_messages->0)
    } else if lang_env is Some && lang_env->0.len() > 0 {
        locale_lang(lang_env->0)
    } else {
        Lang::En
    }
}

/// `CHIRA_LANG` when it names a language, else the locale, else English.
pub open spec fn lang_choice(
    chira_lang: Option<Seq<char>>,
    lc_all: Option<Seq<char>>,
    lc_messages: Option<Seq<char>>,
    lang_env: Option<Seq<char>>,
) -> Lang {
    if chira_lang is Some && lang_override(chira_lang->0) is Some {
        lang_override(chira_lang->0)->0
    } else {
        locale_choice(lc_all, lc_messages, lang_env)
    }
}

fn is_word(v: &Vec<char>, w: &str) -> (r: bool)
    ensures
        r == (v@ == w@),
{
    let wv = chars_of(w);
    if v.len() != wv.len() {
        return false;
    }
    let mut i: usize = 0;
    while i < v.len()
        invariant
            v.len() == wv.len(),
            wv@ == w@,
            i <= v.len(),
            forall|k: int| 0 <= k < i ==> v@[k] == wv@[k],
        decreases v.len() - i,
    {
        if v[i] != wv[i] {
            assert(v@[i as int] != wv@[i as int]);
            return false;
        }
        i = i + 1;
    }
    assert(v@ =~= wv@);
    true
}

fn override_of(v: &str) -> (r: Option<Lang>)
    ensures
        r == lang_override(v@),
{
    let l = ascii_lower_chars(&chars_of(v));
    if is_word(&l, "ja") || is_word(&l, "ja_jp") || is_word(&l, "japanese") {
        Some(Lang::Ja)
    } else if is_word(&l, "en") || is_word(&l, "en_us") || is_word(&l, "english") {
        Some(Lang::En)
    } else {
        None
    }
}

fn locale_of(v: &str) -> (r: Lang)
    ensures
        r == locale_lang(v@),
{
    let l = ascii_lower_chars(&chars_of(v));
    proof {
        reveal_strlit("ja");
        assert("ja"@ =~= seq!['j', 'a']);
    }
    if l.len() >= 2 && l[0] == 'j' && l[1] == 'a' {
        assert(l@.subrange(0, 2) =~= seq!['j', 'a']);
        Lang::Ja
    } else {
        proof {
            if l@.len() >= 2 {
                assert(l@.subrange(0, 2)[0] == l@[0]);
                assert(l@.subrange(0, 2)[1] == l@[1]);
            }
        }
        Lang::En
    }
}

/// Decides the display language from `CHIRA_LANG`, `LC_ALL`, `LC_MESSAGES` and `LANG`.
pub fn resolve_lang(
    chira_lang: Option<&str>,
    lc_all: Option<&str>,
    lc_messages: Option<&str>,
    lang_env: Option<&str>,
) -> (r: Lang)
    ensures
        r == lang_choice(opt_view(chira_lang), opt_view(lc_all), opt_view(lc_messages), opt_view(lang_env)),
{
    if let Some(v) = chira_lang {
        if let Some(l) = override_of(v) {
            return l;
        }
    }
    if let Some(v) = lc_all {
        if !v.is_empty() {
            return locale_of(v);
        }
    }
    if let Some(v) = lc_messages {
        if !v.is_empty() {
            return locale_of(v);
        }
    }
    if let Some(v) = lang_env {
        if !v.is_empty() {
            return locale_of(v);
        }
    }
    Lang::En
}

/// Label, type hint, description and resolution order of one configuration item.
pub struct ConfigItemHelp {
    pub label: &'static str,
    pub type_hint: &'static str,
    pub description: &'static str,
    pub resolution: &'static str,
}

/// The full usage text.
pub open spec fn usage_spec(lang: Lang) -> Seq<char> {
    match lang {
        Lang::Ja => "\
chira — 一時的な scratch ディレクトリを管理する TUI/CLI

usage: chira                          TUI を起動する
       chira [--cd-file <path>]       TUI 起動 (終了時に最終 dir を書き出す)
       chira <subcommand> [args]      CLI として 1 ショット実行

TUI オプション:
  --cd-file <path>   終了時に最終ディレクトリを <path> へ書き出す
                     (シェル関数で cd するための連携用。README 参照)
  -h, --help         このヘルプを表示
  -V, --version      バージョン情報を表示

サブコマンド:
  ls [<path>]              エントリ一覧 (-l で <mtime>\\t<size>\\t<name>)
  tree [<path>]            ディレクトリ構造を tree 風に表示 (深さ 4 / 100 行)
  new [<name>] [--no-edit] 新規ファイル作成 + $EDITOR を開く (省略時は scratch-YYYYMMDD-HHMMSS.md)
  mkdir [<name>]           新規ディレクトリ作成 (省略時は scratch-YYYYMMDD-HHMMSS)
  edit <name>              $EDITOR でファイルを開く
  shell [<dir>]            指定ディレクトリ (省略時は root) で $SHELL を開く
  rm <name> [-r] [-f]      削除 (dir は -r、-f で確認スキップ)
  mv <old> <new>           リネーム
  path [<name>]            エントリのフルパスを出力 (cd 連携用)
  find <query> [<path>]    名前で絞り込み一覧 (substring match)
  gc [--ttl <dur>] [--archive-dir <path>] [--dry-run]
                           mtime が TTL を超えたエントリを archive へ移動
"@,
        Lang::En => "\
chira — Manage throwaway scratch directories from a TUI/CLI.

usage: chira                          Launch the TUI
       chira [--cd-file <path>]       Launch the TUI (write final dir on exit)
       chira <subcommand> [args]      One-shot CLI invocation

TUI options:
  --cd-file <path>   On exit, write the final directory to <path>
                     (for shell-function cd integration; see README)
  -h, --help         Show this help
  -V, --version      Print version information

Subcommands:
  ls [<path>]              List entries (-l for <mtime>\\t<size>\\t<name>)
  tree [<path>]            Print a tree view (depth 4 / 100 lines)
  new [<name>] [--no-edit] Create a file and open $EDITOR (default: scratch-YYYYMMDD-HHMMSS.md)
  mkdir [<name>]           Create a directory (default: scratch-YYYYMMDD-HHMMSS)
  edit <name>              Open a file in $EDITOR
  shell [<dir>]            Open $SHELL in the given directory (default: root)
  rm <name> [-r] [-f]      Delete (-r for dirs, -f to skip confirm)
  mv <old> <new>           Rename
  path [<name>]            Print the full path of an entry (for cd integration)
  find <query> [<path>]    List entries whose name matches the substring
  gc [--ttl <dur>] [--archive-dir <path>] [--dry-run]
                           Move entries whose mtime exceeds TTL to the archive dir
"@,
    }
}

/// Usage text of the command line.
pub fn usage(lang: Lang) -> (s: &'static str)
    ensures
        s@ == usage_spec(lang),
{
    match lang {
        Lang::Ja => "\
chira — 一時的な scratch ディレクトリを管理する TUI/CLI

usage: chira                          TUI を起動する
       chira [--cd-file <path>]       TUI 起動 (終了時に最終 dir を書き出す)
       chira <subcommand> [args]      CLI として 1 ショット実行

TUI オプション:
  --cd-file <path>   終了時に最終ディレクトリを <path> へ書き出す
                     (シェル関数で cd するための連携用。README 参照)
  -h, --help         このヘルプを表示
  -V, --version      バージョン情報を表示

サブコマンド:
  ls [<path>]              エントリ一覧 (-l で <mtime>\\t<size>\\t<name>)
  tree [<path>]            ディレクトリ構造を tree 風に表示 (深さ 4 / 100 行)
  new [<name>] [--no-edit] 新規ファイル作成 + $EDITOR を開く (省略時は scratch-YYYYMMDD-HHMMSS.md)
  mkdir [<name>]           新規ディレクトリ作成 (省略時は scratch-YYYYMMDD-HHMMSS)
  edit <name>              $EDITOR でファイルを開く
  shell [<dir>]            指定ディレクトリ (省略時は root) で $SHELL を開く
  rm <name> [-r] [-f]      削除 (dir は -r、-f で確認スキップ)
  mv <old> <new>           リネーム
  path [<name>]            エントリのフルパスを出力 (cd 連携用)
  find <query> [<path>]    名前で絞り込み一覧 (substring match)
  gc [--ttl <dur>] [--archive-dir <path>] [--dry-run]
                           mtime が TTL を超えたエントリを archive へ移動
",
        Lang::En => "\
chira — Manage throwaway scratch directories from a TUI/CLI.

usage: chira                          Launch the TUI
       chira [--cd-file <path>]       Launch the TUI (write final dir on exit)
       chira <subcommand> [args]      One-shot CLI invocation

TUI options:
  --cd-file <path>   On exit, write the final directory to <path>
                     (for shell-function cd integration; see README)
  -h, --help         Show this help
  -V, --version      Print version information

Subcommands:
  ls [<path>]              List entries (-l for <mtime>\\t<size>\\t<name>)
  tree [<path>]            Print a tree view (depth 4 / 100 lines)
  new [<name>] [--no-edit] Create a file and open $EDITOR (default: scratch-YYYYMMDD-HHMMSS.md)
  mkdir [<name>]           Create a directory (default: scratch-YYYYMMDD-HHMMSS)
  edit <name>              Open a file in $EDITOR
  shell [<dir>]            Open $SHELL in the given directory (default: root)
  rm <name> [-r] [-f]      Delete (-r for dirs, -f to skip confirm)
  mv <old> <new>           Rename
  path [<name>]            Print the full path of an entry (for cd integration)
  find <query> [<path>]    List entries whose name matches the substring
  gc [--ttl <dur>] [--archive-dir <path>] [--dry-run]
                           Move entries whose mtime exceeds TTL to the archive dir
",
    }
}

/// The key/description rows of the help overlay, as text.
pub open spec fn help_rows_spec(lang: Lang) -> Seq<(Seq<char>, Seq<char>)> {
    match lang {
        Lang::Ja => seq![("j / k, ↓ / ↑"@, "カーソル移動"@), ("g / G"@, "先頭 / 末尾"@), ("l / → / Enter"@, "開く (ファイル→$EDITOR, dir→中へ)"@), ("h / ← / Backspace"@, "親ディレクトリへ戻る"@), ("e"@, "$EDITOR で開く"@), ("s"@, "シェルを開く (実験・agent 実行)"@), ("n / N"@, "新規ファイル / ディレクトリ"@), ("t"@, "アクションで新規 (テンプレ/clone/script)"@), ("r"@, "名前を変更"@), ("d"@, "削除 (確認あり)"@), ("/"@, "名前で絞り込み検索"@), ("?"@, "このヘルプ"@), (","@, "設定"@), ("q"@, "終了"@)],
        Lang::En => seq![("j / k, ↓ / ↑"@, "Move cursor"@), ("g / G"@, "Top / bottom"@), ("l / → / Enter"@, "Open (file → $EDITOR, dir → enter)"@), ("h / ← / Backspace"@, "Go to parent directory"@), ("e"@, "Open in $EDITOR"@), ("s"@, "Open shell (experiments / run agents)"@), ("n / N"@, "New file / directory"@), ("t"@, "New dir from an action (template/clone/script)"@), ("r"@, "Rename"@), ("d"@, "Delete (with confirmation)"@), ("/"@, "Filter by name"@), ("?"@, "This help"@), (","@, "Configuration"@), ("q"@, "Quit"@)],
    }
}

/// Key/description rows of the help overlay.
pub fn help_rows(lang: Lang) -> (r: Vec<(&'static str, &'static str)>)
    ensures
        r@.len() == help_rows_spec(lang).len(),
        forall|i: int| 0 <= i < r@.len() ==> (#[trigger] r@[i]).0@ == help_rows_spec(lang)[i].0 && r@[i].1@ == help_rows_spec(lang)[i].1,
{
    match lang {
        Lang::Ja => vec![("j / k, ↓ / ↑", "カーソル移動"), ("g / G", "先頭 / 末尾"), ("l / → / Enter", "開く (ファイル→$EDITOR, dir→中へ)"), ("h / ← / Backspace", "親ディレクトリへ戻る"), ("e", "$EDITOR で開く"), ("s", "シェルを開く (実験・agent 実行)"), ("n / N", "新規ファイル / ディレクトリ"), ("t", "アクションで新規 (テンプレ/clone/script)"), ("r", "名前を変更"), ("d", "削除 (確認あり)"), ("/", "名前で絞り込み検索"), ("?", "このヘルプ"), (",", "設定"), ("q", "終了")],
        Lang::En => vec![("j / k, ↓ / ↑", "Move cursor"), ("g / G", "Top / bottom"), ("l / → / Enter", "Open (file → $EDITOR, dir → enter)"), ("h / ← / Backspace", "Go to parent directory"), ("e", "Open in $EDITOR"), ("s", "Open shell (experiments / run agents)"), ("n / N", "New file / directory"), ("t", "New dir from an action (template/clone/script)"), ("r", "Rename"), ("d", "Delete (with confirmation)"), ("/", "Filter by name"), ("?", "This help"), (",", "Configuration"), ("q", "Quit")],
    }
}

pub fn config_item_dir(lang: Lang) -> (h: ConfigItemHelp)
    ensures
        match lang {
            Lang::Ja => h.label@ == "dir"@ && h.type_hint@ == "string"@ && h.description@ == "scratch エントリの保存先ディレクトリ。"@ && h.resolution@ == "$CHIRA_DIR → config.dir → $XDG_DATA_HOME/chira → ~/.local/share/chira"@,
            Lang::En => h.label@ == "dir"@ && h.type_hint@ == "string"@ && h.description@ == "Storage location for scratch entries."@ && h.resolution@ == "$CHIRA_DIR → config.dir → $XDG_DATA_HOME/chira → ~/.local/share/chira"@,
        },
{
    match lang {
        Lang::Ja => ConfigItemHelp { label: "dir", type_hint: "string", description: "scratch エントリの保存先ディレクトリ。", resolution: "$CHIRA_DIR → config.dir → $XDG_DATA_HOME/chira → ~/.local/share/chira" },
        Lang::En => ConfigItemHelp { label: "dir", type_hint: "string", description: "Storage location for scratch entries.", resolution: "$CHIRA_DIR → config.dir → $XDG_DATA_HOME/chira → ~/.local/share/chira" },
    }
}

pub fn config_item_editor(lang: Lang) -> (h: ConfigItemHelp)
    ensures
        match lang {
            Lang::Ja => h.label@ == "editor"@ && h.type_hint@ == "string"@ && h.description@ == "ファイルを開くときに使う $EDITOR (引数可)。"@ && h.resolution@ == "$EDITOR → config.editor → vi"@,
            Lang::En => h.label@ == "editor"@ && h.type_hint@ == "string"@ && h.description@ == "Editor command used to open files (arguments allowed)."@ && h.resolution@ == "$EDITOR → config.editor → vi"@,
        },
{
    match lang {
        Lang::Ja => ConfigItemHelp { label: "editor", type_hint: "string", description: "ファイルを開くときに使う $EDITOR (引数可)。", resolution: "$EDITOR → config.editor → vi" },
        Lang::En => ConfigItemHelp { label: "editor", type_hint: "string", description: "Editor command used to open files (arguments allowed).", resolution: "$EDITOR → config.editor → vi" },
    }
}

pub fn config_item_shell(lang: Lang) -> (h: ConfigItemHelp)
    ensures
        match lang {
            Lang::Ja => h.label@ == "shell"@ && h.type_hint@ == "string"@ && h.description@ == "`s` で開く $SHELL (引数可)。"@ && h.resolution@ == "$SHELL → config.shell → /bin/sh"@,
            Lang::En => h.label@ == "shell"@ && h.type_hint@ == "string"@ && h.description@ == "Shell opened with `s` (arguments allowed)."@ && h.resolution@ == "$SHELL → config.shell → /bin/sh"@,
        },
{
    match lang {
        Lang::Ja => ConfigItemHelp { label: "shell", type_hint: "string", description: "`s` で開く $SHELL (引数可)。", resolution: "$SHELL → config.shell → /bin/sh" },
        Lang::En => ConfigItemHelp { label: "shell", type_hint: "string", description: "Shell opened with `s` (arguments allowed).", resolution: "$SHELL → config.shell → /bin/sh" },
    }
}

pub fn config_item_archive_ttl(lang: Lang) -> (h: ConfigItemHelp)
    ensures
        match lang {
            Lang::Ja => h.label@ == "archive.ttl_days"@ && h.type_hint@ == "u64 (日)"@ && h.description@ == "mtime がこの日数を超えたエントリを archive 対象にする。0 or 未設定で off。"@ && h.resolution@ == "config 値のみ (env 経由なし)"@,
            Lang::En => h.label@ == "archive.ttl_days"@ && h.type_hint@ == "u64 (days)"@ && h.description@ == "Entries whose mtime exceeds this are archived. 0 / unset disables archive."@ && h.resolution@ == "config only (no env override)"@,
        },
{
    match lang {
        Lang::Ja => ConfigItemHelp { label: "archive.ttl_days", type_hint: "u64 (日)", description: "mtime がこの日数を超えたエントリを archive 対象にする。0 or 未設定で off。", resolution: "config 値のみ (env 経由なし)" },
        Lang::En => ConfigItemHelp { label: "archive.ttl_days", type_hint: "u64 (days)", description: "Entries whose mtime exceeds this are archived. 0 / unset disables archive.", resolution: "config only (no env override)" },
    }
}

pub fn config_item_archive_dir(lang: Lang) -> (h: ConfigItemHelp)
    ensures
        match lang {
            Lang::Ja => h.label@ == "archive.dir"@ && h.type_hint@ == "string"@ && h.description@ == "archive 先ディレクトリ。未設定で <CHIRA_DIR>/.archive を使う。"@ && h.resolution@ == "config 値のみ"@,
            Lang::En => h.label@ == "archive.dir"@ && h.type_hint@ == "string"@ && h.description@ == "Archive destination. Defaults to <CHIRA_DIR>/.archive when unset."@ && h.resolution@ == "config only"@,
        },
{
    match lang {
        Lang::Ja => ConfigItemHelp { label: "archive.dir", type_hint: "string", description: "archive 先ディレクトリ。未設定で <CHIRA_DIR>/.archive を使う。", resolution: "config 値のみ" },
        Lang::En => ConfigItemHelp { label: "archive.dir", type_hint: "string", description: "Archive destination. Defaults to <CHIRA_DIR>/.archive when unset.", resolution: "config only" },
    }
}

pub fn config_item_archive_on_startup(lang: Lang) -> (h: ConfigItemHelp)
    ensures
        match lang {
            Lang::Ja => h.label@ == "archive.on_startup"@ && h.type_hint@ == "bool"@ && h.description@ == "TUI 起動時に archive sweep を走らせるか。"@ && h.resolution@ == "config 値のみ"@,
            Lang::En => h.label@ == "archive.on_startup"@ && h.type_hint@ == "bool"@ && h.description@ == "Run archive sweep when the TUI starts."@ && h.resolution@ == "config only"@,
        },
{
    match lang {
        Lang::Ja => ConfigItemHelp { label: "archive.on_startup", type_hint: "bool", description: "TUI 起動時に archive sweep を走らせるか。", resolution: "config 値のみ" },
        Lang::En => ConfigItemHelp { label: "archive.on_startup", type_hint: "bool", description: "Run archive sweep when the TUI starts.", resolution: "config only" },
    }
}

pub fn config_item_archive_keep(lang: Lang) -> (h: ConfigItemHelp)
    ensures
        match lang {
            Lang::Ja => h.label@ == "archive.keep"@ && h.type_hint@ == "string[]"@ && h.description@ == "archive 対象から除外するファイル名 glob (例: pinned-*, longterm/)。"@ && h.resolution@ == "config 値のみ"@,
            Lang::En => h.label@ == "archive.keep"@ && h.type_hint@ == "string[]"@ && h.description@ == "Globs whose names are kept (e.g. pinned-*, longterm/)."@ && h.resolution@ == "config only"@,
        },
{
    match lang {
        Lang::Ja => ConfigItemHelp { label: "archive.keep", type_hint: "string[]", description: "archive 対象から除外するファイル名 glob (例: pinned-*, longterm/)。", resolution: "config 値のみ" },
        Lang::En => ConfigItemHelp { label: "archive.keep", type_hint: "string[]", description: "Globs whose names are kept (e.g. pinned-*, longterm/).", resolution: "config only" },
    }
}

/// Text of [`err_cd_file_needs_arg`].
pub open spec fn err_cd_file_needs_arg_text(lang: Lang) -> Seq<char> {
    match lang {
        Lang::Ja => "--cd-file には引数が必要です\n"@,
        Lang::En => "--cd-file requires an argument\n"@,
    }
}

pub fn err_cd_file_needs_arg(lang: Lang) -> (s: &'static str)
    ensures
        s@ == err_cd_file_needs_arg_text(lang),
{
    match lang {
        Lang::Ja => "--cd-file には引数が必要です\n",
        Lang::En => "--cd-file requires an argument\n",
    }
}

/// Text of [`err_option_needs_arg`].
pub open spec fn err_option_needs_arg_text(lang: Lang, opt: Seq<char>) -> Seq<char> {
    match lang {
        Lang::Ja => opt + " には引数が必要です\n"@,
        Lang::En => opt + " requires an argument\n"@,
    }
}

pub fn err_option_needs_arg(lang: Lang, opt: &str) -> (s: String)
    ensures
        s@ == err_option_needs_arg_text(lang, opt@),
{
    match lang {
        Lang::Ja => {
            let mut s = String::new();
            s.append(opt);
            s.append(" には引数が必要です\n");
            s
        },
        Lang::En => {
            let mut s = String::new();
            s.append(opt);
            s.append(" requires an argument\n");
            s
        },
    }
}

/// Text of [`err_gc_ttl_missing`].
pub open spec fn err_gc_ttl_missing_text(lang: Lang) -> Seq<char> {
    match lang {
        Lang::Ja => "TTL が指定されていません。--ttl <dur> または config.toml の [archive] ttl_days を設定してください\n"@,
        Lang::En => "No TTL specified. Pass --ttl <dur> or set [archive] ttl_days in config.toml\n"@,
    }
}

pub fn err_gc_ttl_missing(lang: Lang) -> (s: &'static str)
    ensures
        s@ == err_gc_ttl_missing_text(lang),
{
    match lang {
        Lang::Ja => "TTL が指定されていません。--ttl <dur> または config.toml の [archive] ttl_days を設定してください\n",
        Lang::En => "No TTL specified. Pass --ttl <dur> or set [archive] ttl_days in config.toml\n",
    }
}

/// Text of [`err_gc_ttl_invalid`].
pub open spec fn err_gc_ttl_invalid_text(lang: Lang, e: Seq<char>) -> Seq<char> {
    match lang {
        Lang::Ja => "--ttl の解釈に失敗: "@ + e + "\n"@,
        Lang::En => "Failed to parse --ttl: "@ + e + "\n"@,
    }
}

pub fn err_gc_ttl_invalid(lang: Lang, e: &str) -> (s: String)
    ensures
        s@ == err_gc_ttl_invalid_text(lang, e@),
{
    match lang {
        Lang::Ja => {
            let mut s = String::new();
            s.append("--ttl の解釈に失敗: ");
            s.append(e);
            s.append("\n");
            s
        },
        Lang::En => {
            let mut s = String::new();
            s.append("Failed to parse --ttl: ");
            s.append(e);
            s.append("\n");
            s
        },
    }
}

/// Text of [`err_gc_sweep`].
pub open spec fn err_gc_sweep_text(lang: Lang, e: Seq<char>) -> Seq<char> {
    match lang {
        Lang::Ja => "archive 中にエラー: "@ + e + "\n"@,
        Lang::En => "Error while archiving: "@ + e + "\n"@,
    }
}

pub fn err_gc_sweep(lang: Lang, e: &str) -> (s: String)
    ensures
        s@ == err_gc_sweep_text(lang, e@),
{
    match lang {
        Lang::Ja => {
            let mut s = String::new();
            s.append("archive 中にエラー: ");
            s.append(e);
            s.append("\n");
            s
        },
        Lang::En => {
            let mut s = String::new();
            s.append("Error while archiving: ");
            s.append(e);
            s.append("\n");
            s
        },
    }
}

/// Text of [`warn_archive_mkdir`].
pub open spec fn warn_archive_mkdir_text(lang: Lang, path: Seq<char>, e: Seq<char>) -> Seq<char> {
    match lang {
        Lang::Ja => "archive ディレクトリの作成に失敗 ("@ + path + "): "@ + e,
        Lang::En => "Failed to create archive directory ("@ + path + "): "@ + e,
    }
}

pub fn warn_archive_mkdir(lang: Lang, path: &str, e: &str) -> (s: String)
    ensures
        s@ == warn_archive_mkdir_text(lang, path@, e@),
{
    match lang {
        Lang::Ja => {
            let mut s = String::new();
            s.append("archive ディレクトリの作成に失敗 (");
            s.append(path);
            s.append("): ");
            s.append(e);
            s
        },
        Lang::En => {
            let mut s = String::new();
            s.append("Failed to create archive directory (");
            s.append(path);
            s.append("): ");
            s.append(e);
            s
        },
    }
}

/// Text of [`warn_archive_move`].
pub open spec fn warn_archive_move_text(lang: Lang, name: Seq<char>, dest: Seq<char>, e: Seq<char>) -> Seq<char> {
    match lang {
        Lang::Ja => name + " の archive に失敗 (→ "@ + dest + "): "@ + e,
        Lang::En => "Failed to archive "@ + name + " (→ "@ + dest + "): "@ + e,
    }
}

pub fn warn_archive_move(lang: Lang, name: &str, dest: &str, e: &str) -> (s: String)
    ensures
        s@ == warn_archive_move_text(lang, name@, dest@, e@),
{
    match lang {
        Lang::Ja => {
            let mut s = String::new();
            s.append(name);
            s.append(" の archive に失敗 (→ ");
            s.append(dest);
            s.append("): ");
            s.append(e);
            s
        },
        Lang::En => {
            let mut s = String::new();
            s.append("Failed to archive ");
            s.append(name);
            s.append(" (→ ");
            s.append(dest);
            s.append("): ");
            s.append(e);
            s
        },
    }
}

/// Text of [`warn_archive_mtime`].
pub open spec fn warn_archive_mtime_text(lang: Lang, name: Seq<char>, e: Seq<char>) -> Seq<char> {
    match lang {
        Lang::Ja => name + " の mtime 取得に失敗 (skip): "@ + e,
        Lang::En => "Failed to read mtime for "@ + name + " (skipped): "@ + e,
    }
}

pub fn warn_archive_mtime(lang: Lang, name: &str, e: &str) -> (s: String)
    ensures
        s@ == warn_archive_mtime_text(lang, name@, e@),
{
    match lang {
        Lang::Ja => {
            let mut s = String::new();
            s.append(name);
            s.append(" の mtime 取得に失敗 (skip): ");
            s.append(e);
            s
        },
        Lang::En => {
            let mut s = String::new();
            s.append("Failed to read mtime for ");
            s.append(name);
            s.append(" (skipped): ");
            s.append(e);
            s
        },
    }
}

/// Text of [`warn_archive_keep_probe`].
pub open spec fn warn_archive_keep_probe_text(lang: Lang, name: Seq<char>, e: Seq<char>) -> Seq<char> {
    match lang {
        Lang::Ja => name + " の .keep 確認に失敗 (skip、保護側に倒す): "@ + e,
        Lang::En => "Failed to probe .keep in "@ + name + " (skipped, erring on the protected side): "@ + e,
    }
}

pub fn warn_archive_keep_probe(lang: Lang, name: &str, e: &str) -> (s: String)
    ensures
        s@ == warn_archive_keep_probe_text(lang, name@, e@),
{
    match lang {
        Lang::Ja => {
            let mut s = String::new();
            s.append(name);
            s.append(" の .keep 確認に失敗 (skip、保護側に倒す): ");
            s.append(e);
            s
        },
        Lang::En => {
            let mut s = String::new();
            s.append("Failed to probe .keep in ");
            s.append(name);
            s.append(" (skipped, erring on the protected side): ");
            s.append(e);
            s
        },
    }
}

/// Text of [`gc_dry_run_header`].
pub open spec fn gc_dry_run_header_text(lang: Lang) -> Seq<char> {
    match lang {
        Lang::Ja => "dry-run: 以下のエントリを archive します"@,
        Lang::En => "dry-run: the following entries would be archived"@,
    }
}

pub fn gc_dry_run_header(lang: Lang) -> (s: &'static str)
    ensures
        s@ == gc_dry_run_header_text(lang),
{
    match lang {
        Lang::Ja => "dry-run: 以下のエントリを archive します",
        Lang::En => "dry-run: the following entries would be archived",
    }
}

/// Text of [`gc_dry_run_entry`].
pub open spec fn gc_dry_run_entry_text(name: Seq<char>, dest: Seq<char>) -> Seq<char> {
    "  "@ + name + " → "@ + dest
}

pub fn gc_dry_run_entry(name: &str, dest: &str) -> (s: String)
    ensures
        s@ == gc_dry_run_entry_text(name@, dest@),
{
    {
        let mut s = String::new();
        s.append("  ");
        s.append(name);
        s.append(" → ");
        s.append(dest);
        s
    }
}

/// Text of [`gc_summary`].
pub open spec fn gc_summary_text(lang: Lang, archived: usize, kept: usize, errors: usize) -> Seq<char> {
    match lang {
        Lang::Ja => "archive 完了: "@ + decimal(archived as nat) + " 件移動 / "@ + decimal(kept as nat) + " 件保持 / "@ + decimal(errors as nat) + " 件エラー"@,
        Lang::En => "archived: "@ + decimal(archived as nat) + " moved / "@ + decimal(kept as nat) + " kept / "@ + decimal(errors as nat) + " errors"@,
    }
}

pub fn gc_summary(lang: Lang, archived: usize, kept: usize, errors: usize) -> (s: String)
    ensures
        s@ == gc_summary_text(lang, archived, kept, errors),
{
    match lang {
        Lang::Ja => {
            let mut s = String::new();
            s.append("archive 完了: ");
            let d = decimal_string(archived as u64);
            s.append(d.as_str());
            s.append(" 件移動 / ");
            let d = decimal_string(kept as u64);
            s.append(d.as_str());
            s.append(" 件保持 / ");
            let d = decimal_string(errors as u64);
            s.append(d.as_str());
            s.append(" 件エラー");
            s
        },
        Lang::En => {
            let mut s = String::new();
            s.append("archived: ");
            let d = decimal_string(archived as u64);
            s.append(d.as_str());
            s.append(" moved / ");
            let d = decimal_string(kept as u64);
            s.append(d.as_str());
            s.append(" kept / ");
            let d = decimal_string(errors as u64);
            s.append(d.as_str());
            s.append(" errors");
            s
        },
    }
}

/// Text of [`gc_summary_dry_run`].
pub open spec fn gc_summary_dry_run_text(lang: Lang, candidates: usize, kept: usize, errors: usize) -> Seq<char> {
    match lang {
        Lang::Ja => "dry-run: "@ + decimal(candidates as nat) + " 件が候補 / "@ + decimal(kept as nat) + " 件は対象外 / "@ + decimal(errors as nat) + " 件エラー"@,
        Lang::En => "dry-run: "@ + decimal(candidates as nat) + " candidate(s) / "@ + decimal(kept as nat) + " kept / "@ + decimal(errors as nat) + " errors"@,
    }
}

pub fn gc_summary_dry_run(lang: Lang, candidates: usize, kept: usize, errors: usize) -> (s: String)
    ensures
        s@ == gc_summary_dry_run_text(lang, candidates, kept, errors),
{
    match lang {
        Lang::Ja => {
            let mut s = String::new();
            s.append("dry-run: ");
            let d = decimal_string(candidates as u64);
            s.append(d.as_str());
            s.append(" 件が候補 / ");
            let d = decimal_string(kept as u64);
            s.append(d.as_str());
            s.append(" 件は対象外 / ");
            let d = decimal_string(errors as u64);
            s.append(d.as_str());
            s.append(" 件エラー");
            s
        },
        Lang::En => {
            let mut s = String::new();
            s.append("dry-run: ");
            let d = decimal_string(candidates as u64);
            s.append(d.as_str());
            s.append(" candidate(s) / ");
            let d = decimal_string(kept as u64);
            s.append(d.as_str());
            s.append(" kept / ");
            let d = decimal_string(errors as u64);
            s.append(d.as_str());
            s.append(" errors");
            s
        },
    }
}

/// Text of [`gc_archived`].
pub open spec fn gc_archived_text(lang: Lang, name: Seq<char>, dest: Seq<char>) -> Seq<char> {
    match lang {
        Lang::Ja => "移動: "@ + name + " → "@ + dest,
        Lang::En => "moved: "@ + name + " → "@ + dest,
    }
}

pub fn gc_archived(lang: Lang, name: &str, dest: &str) -> (s: String)
    ensures
        s@ == gc_archived_text(lang, name@, dest@),
{
    match lang {
        Lang::Ja => {
            let mut s = String::new();
            s.append("移動: ");
            s.append(name);
            s.append(" → ");
            s.append(dest);
            s
        },
        Lang::En => {
            let mut s = String::new();
            s.append("moved: ");
            s.append(name);
            s.append(" → ");
            s.append(dest);
            s
        },
    }
}

/// Text of [`err_unknown_arg`].
pub open spec fn err_unknown_arg_text(lang: Lang, arg: Seq<char>) -> Seq<char> {
    match lang {
        Lang::Ja => "不明な引数: "@ + arg + "\n"@ + usage_spec(lang),
        Lang::En => "Unknown argument: "@ + arg + "\n"@ + usage_spec(lang),
    }
}

pub fn err_unknown_arg(lang: Lang, arg: &str) -> (s: String)
    ensures
        s@ == err_unknown_arg_text(lang, arg@),
{
    match lang {
        Lang::Ja => {
            let mut s = String::new();
            s.append("不明な引数: ");
            s.append(arg);
            s.append("\n");
            s.append(usage(lang));
            s
        },
        Lang::En => {
            let mut s = String::new();
            s.append("Unknown argument: ");
            s.append(arg);
            s.append("\n");
            s.append(usage(lang));
            s
        },
    }
}

/// Text of [`warn_config_parse`].
pub open spec fn warn_config_parse_text(lang: Lang, path: Seq<char>, e: Seq<char>) -> Seq<char> {
    match lang {
        Lang::Ja => "設定ファイルの解析に失敗 ("@ + path + "): "@ + e + " — デフォルト設定で起動します"@,
        Lang::En => "Failed to parse config file ("@ + path + "): "@ + e + " — starting with defaults"@,
    }
}

pub fn warn_config_parse(lang: Lang, path: &str, e: &str) -> (s: String)
    ensures
        s@ == warn_config_parse_text(lang, path@, e@),
{
    match lang {
        Lang::Ja => {
            let mut s = String::new();
            s.append("設定ファイルの解析に失敗 (");
            s.append(path);
            s.append("): ");
            s.append(e);
            s.append(" — デフォルト設定で起動します");
            s
        },
        Lang::En => {
            let mut s = String::new();
            s.append("Failed to parse config file (");
            s.append(path);
            s.append("): ");
            s.append(e);
            s.append(" — starting with defaults");
            s
        },
    }
}

/// Text of [`warn_template_format`].
pub open spec fn warn_template_format_text(lang: Lang, key: Seq<char>, template: Seq<char>) -> Seq<char> {
    match lang {
        Lang::Ja => "[new] "@ + key + " の書式を使えません ("@ + template + ") — 既定の名前を使います"@,
        Lang::En => "[new] "@ + key + " is not a format chrono can use ("@ + template + ") — using the default"@,
    }
}

/// The warning for a name template that chrono cannot read or write.
pub fn warn_template_format(lang: Lang, key: &str, template: &str) -> (s: String)
    ensures
        s@ == warn_template_format_text(lang, key@, template@),
{
    let mut s = String::new();
    s.append("[new] ");
    s.append(key);
    match lang {
        Lang::Ja => {
            s.append(" の書式を使えません (");
            s.append(template);
            s.append(") — 既定の名前を使います");
        },
        Lang::En => {
            s.append(" is not a format chrono can use (");
            s.append(template);
            s.append(") — using the default");
        },
    }
    s
}

/// Text of [`warn_template_name`].
pub open spec fn warn_template_name_text(lang: Lang, key: Seq<char>, template: Seq<char>, name: Seq<char>) -> Seq<char> {
    match lang {
        Lang::Ja => "[new] "@ + key + " が不正な名前になります ("@ + template + " → "@ + name + ") — 既定の名前を使います"@,
        Lang::En => "[new] "@ + key + " gives an invalid name ("@ + template + " → "@ + name + ") — using the default"@,
    }
}

/// The warning for a name template whose names fail the name check.
pub fn warn_template_name(lang: Lang, key: &str, template: &str, name: &str) -> (s: String)
    ensures
        s@ == warn_template_name_text(lang, key@, template@, name@),
{
    let mut s = String::new();
    s.append("[new] ");
    s.append(key);
    match lang {
        Lang::Ja => {
            s.append(" が不正な名前になります (");
            s.append(template);
            s.append(" → ");
            s.append(name);
            s.append(") — 既定の名前を使います");
        },
        Lang::En => {
            s.append(" gives an invalid name (");
            s.append(template);
            s.append(" → ");
            s.append(name);
            s.append(") — using the default");
        },
    }
    s
}

/// Text of [`warn_config_unreadable`].
pub open spec fn warn_config_unreadable_text(lang: Lang, path: Seq<char>, e: Seq<char>) -> Seq<char> {
    match lang {
        Lang::Ja => "設定ファイルの読み取りに失敗 ("@ + path + "): "@ + e + " — デフォルト設定で起動します"@,
        Lang::En => "Failed to read config file ("@ + path + "): "@ + e + " — starting with defaults"@,
    }
}

pub fn warn_config_unreadable(lang: Lang, path: &str, e: &str) -> (s: String)
    ensures
        s@ == warn_config_unreadable_text(lang, path@, e@),
{
    match lang {
        Lang::Ja => {
            let mut s = String::new();
            s.append("設定ファイルの読み取りに失敗 (");
            s.append(path);
            s.append("): ");
            s.append(e);
            s.append(" — デフォルト設定で起動します");
            s
        },
        Lang::En => {
            let mut s = String::new();
            s.append("Failed to read config file (");
            s.append(path);
            s.append("): ");
            s.append(e);
            s.append(" — starting with defaults");
            s
        },
    }
}

/// Text of [`err_external_launch`].
pub open spec fn err_external_launch_text(lang: Lang, e: Seq<char>) -> Seq<char> {
    match lang {
        Lang::Ja => "外部プロセスの起動に失敗: "@ + e,
        Lang::En => "Failed to launch external process: "@ + e,
    }
}

pub fn err_external_launch(lang: Lang, e: &str) -> (s: String)
    ensures
        s@ == err_external_launch_text(lang, e@),
{
    match lang {
        Lang::Ja => {
            let mut s = String::new();
            s.append("外部プロセスの起動に失敗: ");
            s.append(e);
            s
        },
        Lang::En => {
            let mut s = String::new();
            s.append("Failed to launch external process: ");
            s.append(e);
            s
        },
    }
}

/// Text of [`err_command_parse`].
pub open spec fn err_command_parse_text(lang: Lang, e: Seq<char>) -> Seq<char> {
    match lang {
        Lang::Ja => "コマンドの解析に失敗: "@ + e,
        Lang::En => "failed to parse command: "@ + e,
    }
}

pub fn err_command_parse(lang: Lang, e: &str) -> (s: String)
    ensures
        s@ == err_command_parse_text(lang, e@),
{
    match lang {
        Lang::Ja => {
            let mut s = String::new();
            s.append("コマンドの解析に失敗: ");
            s.append(e);
            s
        },
        Lang::En => {
            let mut s = String::new();
            s.append("failed to parse command: ");
            s.append(e);
            s
        },
    }
}

/// Text of [`err_command_empty`].
pub open spec fn err_command_empty_text(lang: Lang) -> Seq<char> {
    match lang {
        Lang::Ja => "コマンドが空です"@,
        Lang::En => "command is empty"@,
    }
}

pub fn err_command_empty(lang: Lang) -> (s: &'static str)
    ensures
        s@ == err_command_empty_text(lang),
{
    match lang {
        Lang::Ja => "コマンドが空です",
        Lang::En => "command is empty",
    }
}

/// Text of [`empty_directory`].
pub open spec fn empty_directory_text(lang: Lang) -> Seq<char> {
    match lang {
        Lang::Ja => "(空のディレクトリ)"@,
        Lang::En => "(empty directory)"@,
    }
}

pub fn empty_directory(lang: Lang) -> (s: &'static str)
    ensures
        s@ == empty_directory_text(lang),
{
    match lang {
        Lang::Ja => "(空のディレクトリ)",
        Lang::En => "(empty directory)",
    }
}

/// Text of [`err_unreadable`].
pub open spec fn err_unreadable_text(lang: Lang, e: Seq<char>) -> Seq<char> {
    match lang {
        Lang::Ja => "(読み取り不可: "@ + e + ")"@,
        Lang::En => "(unreadable: "@ + e + ")"@,
    }
}

pub fn err_unreadable(lang: Lang, e: &str) -> (s: String)
    ensures
        s@ == err_unreadable_text(lang, e@),
{
    match lang {
        Lang::Ja => {
            let mut s = String::new();
            s.append("(読み取り不可: ");
            s.append(e);
            s.append(")");
            s
        },
        Lang::En => {
            let mut s = String::new();
            s.append("(unreadable: ");
            s.append(e);
            s.append(")");
            s
        },
    }
}

/// Text of [`status_deleted`].
pub open spec fn status_deleted_text(lang: Lang, name: Seq<char>) -> Seq<char> {
    match lang {
        Lang::Ja => "削除しました: "@ + name,
        Lang::En => "Deleted: "@ + name,
    }
}

pub fn status_deleted(lang: Lang, name: &str) -> (s: String)
    ensures
        s@ == status_deleted_text(lang, name@),
{
    match lang {
        Lang::Ja => {
            let mut s = String::new();
            s.append("削除しました: ");
            s.append(name);
            s
        },
        Lang::En => {
            let mut s = String::new();
            s.append("Deleted: ");
            s.append(name);
            s
        },
    }
}

/// Text of [`status_delete_failed`].
pub open spec fn status_delete_failed_text(lang: Lang, e: Seq<char>) -> Seq<char> {
    match lang {
        Lang::Ja => "削除に失敗: "@ + e,
        Lang::En => "Failed to delete: "@ + e,
    }
}

pub fn status_delete_failed(lang: Lang, e: &str) -> (s: String)
    ensures
        s@ == status_delete_failed_text(lang, e@),
{
    match lang {
        Lang::Ja => {
            let mut s = String::new();
            s.append("削除に失敗: ");
            s.append(e);
            s
        },
        Lang::En => {
            let mut s = String::new();
            s.append("Failed to delete: ");
            s.append(e);
            s
        },
    }
}

/// Text of [`status_create_failed`].
pub open spec fn status_create_failed_text(lang: Lang, e: Seq<char>) -> Seq<char> {
    match lang {
        Lang::Ja => "作成に失敗: "@ + e,
        Lang::En => "Failed to create: "@ + e,
    }
}

pub fn status_create_failed(lang: Lang, e: &str) -> (s: String)
    ensures
        s@ == status_create_failed_text(lang, e@),
{
    match lang {
        Lang::Ja => {
            let mut s = String::new();
            s.append("作成に失敗: ");
            s.append(e);
            s
        },
        Lang::En => {
            let mut s = String::new();
            s.append("Failed to create: ");
            s.append(e);
            s
        },
    }
}

/// Text of [`status_created_dir`].
pub open spec fn status_created_dir_text(lang: Lang, name: Seq<char>) -> Seq<char> {
    match lang {
        Lang::Ja => "作成しました: "@ + name + "/"@,
        Lang::En => "Created: "@ + name + "/"@,
    }
}

pub fn status_created_dir(lang: Lang, name: &str) -> (s: String)
    ensures
        s@ == status_created_dir_text(lang, name@),
{
    match lang {
        Lang::Ja => {
            let mut s = String::new();
            s.append("作成しました: ");
            s.append(name);
            s.append("/");
            s
        },
        Lang::En => {
            let mut s = String::new();
            s.append("Created: ");
            s.append(name);
            s.append("/");
            s
        },
    }
}

/// Text of [`status_no_actions`].
pub open spec fn status_no_actions_text(lang: Lang) -> Seq<char> {
    match lang {
        Lang::Ja => "アクションが設定されていません ([actions.*] を config.toml に追加)"@,
        Lang::En => "No actions configured (add [actions.*] to config.toml)"@,
    }
}

pub fn status_no_actions(lang: Lang) -> (s: &'static str)
    ensures
        s@ == status_no_actions_text(lang),
{
    match lang {
        Lang::Ja => "アクションが設定されていません ([actions.*] を config.toml に追加)",
        Lang::En => "No actions configured (add [actions.*] to config.toml)",
    }
}

/// Text of [`status_run_action`].
pub open spec fn status_run_action_text(lang: Lang, name: Seq<char>) -> Seq<char> {
    match lang {
        Lang::Ja => "アクション実行しました: "@ + name,
        Lang::En => "Ran action: "@ + name,
    }
}

/// 文言は過去形。status は外部プロセス復帰後に初めて描画される (実行中は TUI を抜けている) ため、
/// "実行しました" の方が表示時点の状態に一致する。
pub fn status_run_action(lang: Lang, name: &str) -> (s: String)
    ensures
        s@ == status_run_action_text(lang, name@),
{
    match lang {
        Lang::Ja => {
            let mut s = String::new();
            s.append("アクション実行しました: ");
            s.append(name);
            s
        },
        Lang::En => {
            let mut s = String::new();
            s.append("Ran action: ");
            s.append(name);
            s
        },
    }
}

/// Text of [`status_renamed`].
pub open spec fn status_renamed_text(lang: Lang) -> Seq<char> {
    match lang {
        Lang::Ja => "名前を変更しました"@,
        Lang::En => "Renamed"@,
    }
}

pub fn status_renamed(lang: Lang) -> (s: &'static str)
    ensures
        s@ == status_renamed_text(lang),
{
    match lang {
        Lang::Ja => "名前を変更しました",
        Lang::En => "Renamed",
    }
}

/// Text of [`status_rename_failed`].
pub open spec fn status_rename_failed_text(lang: Lang, e: Seq<char>) -> Seq<char> {
    match lang {
        Lang::Ja => "変更に失敗: "@ + e,
        Lang::En => "Failed to rename: "@ + e,
    }
}

pub fn status_rename_failed(lang: Lang, e: &str) -> (s: String)
    ensures
        s@ == status_rename_failed_text(lang, e@),
{
    match lang {
        Lang::Ja => {
            let mut s = String::new();
            s.append("変更に失敗: ");
            s.append(e);
            s
        },
        Lang::En => {
            let mut s = String::new();
            s.append("Failed to rename: ");
            s.append(e);
            s
        },
    }
}

/// Text of [`preview_special_file`].
pub open spec fn preview_special_file_text(lang: Lang) -> Seq<char> {
    match lang {
        Lang::Ja => "(特殊ファイル: プレビュー不可)"@,
        Lang::En => "(special file: preview unavailable)"@,
    }
}

pub fn preview_special_file(lang: Lang) -> (s: &'static str)
    ensures
        s@ == preview_special_file_text(lang),
{
    match lang {
        Lang::Ja => "(特殊ファイル: プレビュー不可)",
        Lang::En => "(special file: preview unavailable)",
    }
}

/// Text of [`preview_large_file`].
pub open spec fn preview_large_file_text(lang: Lang, bytes: u64) -> Seq<char> {
    match lang {
        Lang::Ja => "(大きいファイル: "@ + decimal(bytes as nat) + " bytes)"@,
        Lang::En => "(large file: "@ + decimal(bytes as nat) + " bytes)"@,
    }
}

pub fn preview_large_file(lang: Lang, bytes: u64) -> (s: String)
    ensures
        s@ == preview_large_file_text(lang, bytes),
{
    match lang {
        Lang::Ja => {
            let mut s = String::new();
            s.append("(大きいファイル: ");
            let d = decimal_string(bytes as u64);
            s.append(d.as_str());
            s.append(" bytes)");
            s
        },
        Lang::En => {
            let mut s = String::new();
            s.append("(large file: ");
            let d = decimal_string(bytes as u64);
            s.append(d.as_str());
            s.append(" bytes)");
            s
        },
    }
}

/// Text of [`preview_binary`].
pub open spec fn preview_binary_text(lang: Lang) -> Seq<char> {
    match lang {
        Lang::Ja => "(バイナリ/読み取り不可)"@,
        Lang::En => "(binary / unreadable)"@,
    }
}

pub fn preview_binary(lang: Lang) -> (s: &'static str)
    ensures
        s@ == preview_binary_text(lang),
{
    match lang {
        Lang::Ja => "(バイナリ/読み取り不可)",
        Lang::En => "(binary / unreadable)",
    }
}

/// Text of [`preview_unreadable`].
pub open spec fn preview_unreadable_text(lang: Lang, e: Seq<char>) -> Seq<char> {
    match lang {
        Lang::Ja => "(読み取り不可: "@ + e + ")"@,
        Lang::En => "(unreadable: "@ + e + ")"@,
    }
}

pub fn preview_unreadable(lang: Lang, e: &str) -> (s: String)
    ensures
        s@ == preview_unreadable_text(lang, e@),
{
    match lang {
        Lang::Ja => {
            let mut s = String::new();
            s.append("(読み取り不可: ");
            s.append(e);
            s.append(")");
            s
        },
        Lang::En => {
            let mut s = String::new();
            s.append("(unreadable: ");
            s.append(e);
            s.append(")");
            s
        },
    }
}

/// Text of [`header_count`].
pub open spec fn header_count_text(lang: Lang, n: usize) -> Seq<char> {
    match lang {
        Lang::Ja => decimal(n as nat) + " 件"@,
        Lang::En => decimal(n as nat) + " items"@,
    }
}

pub fn header_count(lang: Lang, n: usize) -> (s: String)
    ensures
        s@ == header_count_text(lang, n),
{
    match lang {
        Lang::Ja => {
            let mut s = String::new();
            let d = decimal_string(n as u64);
            s.append(d.as_str());
            s.append(" 件");
            s
        },
        Lang::En => {
            let mut s = String::new();
            let d = decimal_string(n as u64);
            s.append(d.as_str());
            s.append(" items");
            s
        },
    }
}

/// Text of [`header_search`].
pub open spec fn header_search_text(lang: Lang, query: Seq<char>, cursor: Seq<char>) -> Seq<char> {
    match lang {
        Lang::Ja => "検索: "@ + query + cursor,
        Lang::En => "Search: "@ + query + cursor,
    }
}

pub fn header_search(lang: Lang, query: &str, cursor: &str) -> (s: String)
    ensures
        s@ == header_search_text(lang, query@, cursor@),
{
    match lang {
        Lang::Ja => {
            let mut s = String::new();
            s.append("検索: ");
            s.append(query);
            s.append(cursor);
            s
        },
        Lang::En => {
            let mut s = String::new();
            s.append("Search: ");
            s.append(query);
            s.append(cursor);
            s
        },
    }
}

/// Text of [`list_title`].
pub open spec fn list_title_text(lang: Lang) -> Seq<char> {
    match lang {
        Lang::Ja => " 一覧 "@,
        Lang::En => " List "@,
    }
}

pub fn list_title(lang: Lang) -> (s: &'static str)
    ensures
        s@ == list_title_text(lang),
{
    match lang {
        Lang::Ja => " 一覧 ",
        Lang::En => " List ",
    }
}

/// Text of [`preview_dir_title`].
pub open spec fn preview_dir_title_text(lang: Lang) -> Seq<char> {
    match lang {
        Lang::Ja => " ディレクトリ内容 "@,
        Lang::En => " Directory contents "@,
    }
}

pub fn preview_dir_title(lang: Lang) -> (s: &'static str)
    ensures
        s@ == preview_dir_title_text(lang),
{
    match lang {
        Lang::Ja => " ディレクトリ内容 ",
        Lang::En => " Directory contents ",
    }
}

/// Text of [`preview_file_title`].
pub open spec fn preview_file_title_text(lang: Lang) -> Seq<char> {
    match lang {
        Lang::Ja => " プレビュー "@,
        Lang::En => " Preview "@,
    }
}

pub fn preview_file_title(lang: Lang) -> (s: &'static str)
    ensures
        s@ == preview_file_title_text(lang),
{
    match lang {
        Lang::Ja => " プレビュー ",
        Lang::En => " Preview ",
    }
}

/// Text of [`empty_hint`].
pub open spec fn empty_hint_text(lang: Lang) -> Seq<char> {
    match lang {
        Lang::Ja => "空です。n: ファイル作成  N: ディレクトリ作成"@,
        Lang::En => "Empty. n: new file  N: new directory"@,
    }
}

pub fn empty_hint(lang: Lang) -> (s: &'static str)
    ensures
        s@ == empty_hint_text(lang),
{
    match lang {
        Lang::Ja => "空です。n: ファイル作成  N: ディレクトリ作成",
        Lang::En => "Empty. n: new file  N: new directory",
    }
}

/// Text of [`empty_search_hint`].
pub open spec fn empty_search_hint_text(lang: Lang) -> Seq<char> {
    match lang {
        Lang::Ja => "一致するエントリがありません。"@,
        Lang::En => "No matching entries."@,
    }
}

pub fn empty_search_hint(lang: Lang) -> (s: &'static str)
    ensures
        s@ == empty_search_hint_text(lang),
{
    match lang {
        Lang::Ja => "一致するエントリがありません。",
        Lang::En => "No matching entries.",
    }
}

/// Text of [`input_title_new_file`].
pub open spec fn input_title_new_file_text(lang: Lang) -> Seq<char> {
    match lang {
        Lang::Ja => " 新規ファイル名 "@,
        Lang::En => " New file name "@,
    }
}

pub fn input_title_new_file(lang: Lang) -> (s: &'static str)
    ensures
        s@ == input_title_new_file_text(lang),
{
    match lang {
        Lang::Ja => " 新規ファイル名 ",
        Lang::En => " New file name ",
    }
}

/// Text of [`input_title_new_dir`].
pub open spec fn input_title_new_dir_text(lang: Lang) -> Seq<char> {
    match lang {
        Lang::Ja => " 新規ディレクトリ名 "@,
        Lang::En => " New directory name "@,
    }
}

pub fn input_title_new_dir(lang: Lang) -> (s: &'static str)
    ensures
        s@ == input_title_new_dir_text(lang),
{
    match lang {
        Lang::Ja => " 新規ディレクトリ名 ",
        Lang::En => " New directory name ",
    }
}

/// Text of [`input_title_rename`].
pub open spec fn input_title_rename_text(lang: Lang) -> Seq<char> {
    match lang {
        Lang::Ja => " 名前を変更 "@,
        Lang::En => " Rename "@,
    }
}

pub fn input_title_rename(lang: Lang) -> (s: &'static str)
    ensures
        s@ == input_title_rename_text(lang),
{
    match lang {
        Lang::Ja => " 名前を変更 ",
        Lang::En => " Rename ",
    }
}

/// Text of [`confirm_delete_dir`].
pub open spec fn confirm_delete_dir_text(lang: Lang, name: Seq<char>) -> Seq<char> {
    match lang {
        Lang::Ja => "ディレクトリ「"@ + name + "」を中身ごと削除しますか?"@,
        Lang::En => "Delete directory \""@ + name + "\" and all its contents?"@,
    }
}

pub fn confirm_delete_dir(lang: Lang, name: &str) -> (s: String)
    ensures
        s@ == confirm_delete_dir_text(lang, name@),
{
    match lang {
        Lang::Ja => {
            let mut s = String::new();
            s.append("ディレクトリ「");
            s.append(name);
            s.append("」を中身ごと削除しますか?");
            s
        },
        Lang::En => {
            let mut s = String::new();
            s.append("Delete directory \"");
            s.append(name);
            s.append("\" and all its contents?");
            s
        },
    }
}

/// Text of [`confirm_delete_file`].
pub open spec fn confirm_delete_file_text(lang: Lang, name: Seq<char>) -> Seq<char> {
    match lang {
        Lang::Ja => "「"@ + name + "」を削除しますか?"@,
        Lang::En => "Delete \""@ + name + "\"?"@,
    }
}

pub fn confirm_delete_file(lang: Lang, name: &str) -> (s: String)
    ensures
        s@ == confirm_delete_file_text(lang, name@),
{
    match lang {
        Lang::Ja => {
            let mut s = String::new();
            s.append("「");
            s.append(name);
            s.append("」を削除しますか?");
            s
        },
        Lang::En => {
            let mut s = String::new();
            s.append("Delete \"");
            s.append(name);
            s.append("\"?");
            s
        },
    }
}

/// Text of [`confirm_delete_label`].
pub open spec fn confirm_delete_label_text(lang: Lang) -> Seq<char> {
    match lang {
        Lang::Ja => ": 削除   "@,
        Lang::En => ": delete   "@,
    }
}

pub fn confirm_delete_label(lang: Lang) -> (s: &'static str)
    ensures
        s@ == confirm_delete_label_text(lang),
{
    match lang {
        Lang::Ja => ": 削除   ",
        Lang::En => ": delete   ",
    }
}

/// Text of [`confirm_cancel_label`].
pub open spec fn confirm_cancel_label_text(lang: Lang) -> Seq<char> {
    match lang {
        Lang::Ja => ": キャンセル"@,
        Lang::En => ": cancel"@,
    }
}

pub fn confirm_cancel_label(lang: Lang) -> (s: &'static str)
    ensures
        s@ == confirm_cancel_label_text(lang),
{
    match lang {
        Lang::Ja => ": キャンセル",
        Lang::En => ": cancel",
    }
}

/// Text of [`confirm_title`].
pub open spec fn confirm_title_text(lang: Lang) -> Seq<char> {
    match lang {
        Lang::Ja => " 確認 "@,
        Lang::En => " Confirm "@,
    }
}

pub fn confirm_title(lang: Lang) -> (s: &'static str)
    ensures
        s@ == confirm_title_text(lang),
{
    match lang {
        Lang::Ja => " 確認 ",
        Lang::En => " Confirm ",
    }
}

/// Text of [`action_pick_title`].
pub open spec fn action_pick_title_text(lang: Lang) -> Seq<char> {
    match lang {
        Lang::Ja => " アクションを選択 "@,
        Lang::En => " Choose action "@,
    }
}

pub fn action_pick_title(lang: Lang) -> (s: &'static str)
    ensures
        s@ == action_pick_title_text(lang),
{
    match lang {
        Lang::Ja => " アクションを選択 ",
        Lang::En => " Choose action ",
    }
}

/// Text of [`confirm_action_prompt`].
pub open spec fn confirm_action_prompt_text(lang: Lang, name: Seq<char>) -> Seq<char> {
    match lang {
        Lang::Ja => "新規「"@ + name + "/」で以下を実行します:"@,
        Lang::En => "Run the following in new \""@ + name + "/\":"@,
    }
}

pub fn confirm_action_prompt(lang: Lang, name: &str) -> (s: String)
    ensures
        s@ == confirm_action_prompt_text(lang, name@),
{
    match lang {
        Lang::Ja => {
            let mut s = String::new();
            s.append("新規「");
            s.append(name);
            s.append("/」で以下を実行します:");
            s
        },
        Lang::En => {
            let mut s = String::new();
            s.append("Run the following in new \"");
            s.append(name);
            s.append("/\":");
            s
        },
    }
}

/// Text of [`confirm_action_run_label`].
pub open spec fn confirm_action_run_label_text(lang: Lang) -> Seq<char> {
    match lang {
        Lang::Ja => ": 実行   "@,
        Lang::En => ": run   "@,
    }
}

pub fn confirm_action_run_label(lang: Lang) -> (s: &'static str)
    ensures
        s@ == confirm_action_run_label_text(lang),
{
    match lang {
        Lang::Ja => ": 実行   ",
        Lang::En => ": run   ",
    }
}

/// Text of [`help_title`].
pub open spec fn help_title_text(lang: Lang) -> Seq<char> {
    match lang {
        Lang::Ja => " ヘルプ (vim-like) "@,
        Lang::En => " Help (vim-like) "@,
    }
}

pub fn help_title(lang: Lang) -> (s: &'static str)
    ensures
        s@ == help_title_text(lang),
{
    match lang {
        Lang::Ja => " ヘルプ (vim-like) ",
        Lang::En => " Help (vim-like) ",
    }
}

/// Text of [`footer_browse`].
pub open spec fn footer_browse_text(lang: Lang) -> Seq<char> {
    match lang {
        Lang::Ja => "j/k:移動  l:開く  h:親  s:シェル  n:新規  t:アクション  /:検索  ,:設定  ?:ヘルプ  q:終了"@,
        Lang::En => "j/k:move  l:open  h:parent  s:shell  n:new  t:action  /:filter  ,:config  ?:help  q:quit"@,
    }
}

pub fn footer_browse(lang: Lang) -> (s: &'static str)
    ensures
        s@ == footer_browse_text(lang),
{
    match lang {
        Lang::Ja => "j/k:移動  l:開く  h:親  s:シェル  n:新規  t:アクション  /:検索  ,:設定  ?:ヘルプ  q:終了",
        Lang::En => "j/k:move  l:open  h:parent  s:shell  n:new  t:action  /:filter  ,:config  ?:help  q:quit",
    }
}

/// Text of [`footer_action_pick`].
pub open spec fn footer_action_pick_text(lang: Lang) -> Seq<char> {
    match lang {
        Lang::Ja => "j/k:移動  Enter:選択  Esc:キャンセル"@,
        Lang::En => "j/k:move  Enter:select  Esc:cancel"@,
    }
}

pub fn footer_action_pick(lang: Lang) -> (s: &'static str)
    ensures
        s@ == footer_action_pick_text(lang),
{
    match lang {
        Lang::Ja => "j/k:移動  Enter:選択  Esc:キャンセル",
        Lang::En => "j/k:move  Enter:select  Esc:cancel",
    }
}

/// Text of [`footer_confirm_action`].
pub open spec fn footer_confirm_action_text(lang: Lang) -> Seq<char> {
    match lang {
        Lang::Ja => "y:実行  n/Esc:キャンセル"@,
        Lang::En => "y:run  n/Esc:cancel"@,
    }
}

pub fn footer_confirm_action(lang: Lang) -> (s: &'static str)
    ensures
        s@ == footer_confirm_action_text(lang),
{
    match lang {
        Lang::Ja => "y:実行  n/Esc:キャンセル",
        Lang::En => "y:run  n/Esc:cancel",
    }
}

/// Text of [`footer_search`].
pub open spec fn footer_search_text(lang: Lang) -> Seq<char> {
    match lang {
        Lang::Ja => "文字入力で絞り込み  Enter:確定  Esc:クリア"@,
        Lang::En => "Type to filter  Enter:confirm  Esc:clear"@,
    }
}

pub fn footer_search(lang: Lang) -> (s: &'static str)
    ensures
        s@ == footer_search_text(lang),
{
    match lang {
        Lang::Ja => "文字入力で絞り込み  Enter:確定  Esc:クリア",
        Lang::En => "Type to filter  Enter:confirm  Esc:clear",
    }
}

/// Text of [`footer_input`].
pub open spec fn footer_input_text(lang: Lang) -> Seq<char> {
    match lang {
        Lang::Ja => "Enter:決定  Esc:キャンセル"@,
        Lang::En => "Enter:confirm  Esc:cancel"@,
    }
}

pub fn footer_input(lang: Lang) -> (s: &'static str)
    ensures
        s@ == footer_input_text(lang),
{
    match lang {
        Lang::Ja => "Enter:決定  Esc:キャンセル",
        Lang::En => "Enter:confirm  Esc:cancel",
    }
}

/// Text of [`footer_confirm`].
pub open spec fn footer_confirm_text(lang: Lang) -> Seq<char> {
    match lang {
        Lang::Ja => "y:削除  n/Esc:キャンセル"@,
        Lang::En => "y:delete  n/Esc:cancel"@,
    }
}

pub fn footer_confirm(lang: Lang) -> (s: &'static str)
    ensures
        s@ == footer_confirm_text(lang),
{
    match lang {
        Lang::Ja => "y:削除  n/Esc:キャンセル",
        Lang::En => "y:delete  n/Esc:cancel",
    }
}

/// Text of [`footer_help_close`].
pub open spec fn footer_help_close_text(lang: Lang) -> Seq<char> {
    match lang {
        Lang::Ja => "何かキーを押すと閉じる"@,
        Lang::En => "Press any key to close"@,
    }
}

pub fn footer_help_close(lang: Lang) -> (s: &'static str)
    ensures
        s@ == footer_help_close_text(lang),
{
    match lang {
        Lang::Ja => "何かキーを押すと閉じる",
        Lang::En => "Press any key to close",
    }
}

/// Text of [`err_unknown_subcommand`].
pub open spec fn err_unknown_subcommand_text(lang: Lang, sub: Seq<char>) -> Seq<char> {
    match lang {
        Lang::Ja => "不明なサブコマンド: "@ + sub + "\n"@ + usage_spec(lang),
        Lang::En => "Unknown subcommand: "@ + sub + "\n"@ + usage_spec(lang),
    }
}

pub fn err_unknown_subcommand(lang: Lang, sub: &str) -> (s: String)
    ensures
        s@ == err_unknown_subcommand_text(lang, sub@),
{
    match lang {
        Lang::Ja => {
            let mut s = String::new();
            s.append("不明なサブコマンド: ");
            s.append(sub);
            s.append("\n");
            s.append(usage(lang));
            s
        },
        Lang::En => {
            let mut s = String::new();
            s.append("Unknown subcommand: ");
            s.append(sub);
            s.append("\n");
            s.append(usage(lang));
            s
        },
    }
}

/// Text of [`err_cli_unknown_flag`].
pub open spec fn err_cli_unknown_flag_text(lang: Lang, sub: Seq<char>, flag: Seq<char>) -> Seq<char> {
    match lang {
        Lang::Ja => sub + ": 不明なオプション: "@ + flag,
        Lang::En => sub + ": unknown option: "@ + flag,
    }
}

pub fn err_cli_unknown_flag(lang: Lang, sub: &str, flag: &str) -> (s: String)
    ensures
        s@ == err_cli_unknown_flag_text(lang, sub@, flag@),
{
    match lang {
        Lang::Ja => {
            let mut s = String::new();
            s.append(sub);
            s.append(": 不明なオプション: ");
            s.append(flag);
            s
        },
        Lang::En => {
            let mut s = String::new();
            s.append(sub);
            s.append(": unknown option: ");
            s.append(flag);
            s
        },
    }
}

/// Text of [`err_cli_too_many_args`].
pub open spec fn err_cli_too_many_args_text(lang: Lang, sub: Seq<char>) -> Seq<char> {
    match lang {
        Lang::Ja => sub + ": 引数が多すぎます"@,
        Lang::En => sub + ": too many arguments"@,
    }
}

pub fn err_cli_too_many_args(lang: Lang, sub: &str) -> (s: String)
    ensures
        s@ == err_cli_too_many_args_text(lang, sub@),
{
    match lang {
        Lang::Ja => {
            let mut s = String::new();
            s.append(sub);
            s.append(": 引数が多すぎます");
            s
        },
        Lang::En => {
            let mut s = String::new();
            s.append(sub);
            s.append(": too many arguments");
            s
        },
    }
}

/// Text of [`err_cli_arg_required`].
pub open spec fn err_cli_arg_required_text(lang: Lang, sub: Seq<char>, what: Seq<char>) -> Seq<char> {
    match lang {
        Lang::Ja => sub + ": 引数が必要です: "@ + what,
        Lang::En => sub + ": argument required: "@ + what,
    }
}

pub fn err_cli_arg_required(lang: Lang, sub: &str, what: &str) -> (s: String)
    ensures
        s@ == err_cli_arg_required_text(lang, sub@, what@),
{
    match lang {
        Lang::Ja => {
            let mut s = String::new();
            s.append(sub);
            s.append(": 引数が必要です: ");
            s.append(what);
            s
        },
        Lang::En => {
            let mut s = String::new();
            s.append(sub);
            s.append(": argument required: ");
            s.append(what);
            s
        },
    }
}

/// Text of [`err_cli_op`].
pub open spec fn err_cli_op_text(lang: Lang, sub: Seq<char>, e: Seq<char>) -> Seq<char> {
    match lang {
        Lang::Ja => sub + ": "@ + e,
        Lang::En => sub + ": "@ + e,
    }
}

pub fn err_cli_op(lang: Lang, sub: &str, e: &str) -> (s: String)
    ensures
        s@ == err_cli_op_text(lang, sub@, e@),
{
    match lang {
        Lang::Ja => {
            let mut s = String::new();
            s.append(sub);
            s.append(": ");
            s.append(e);
            s
        },
        Lang::En => {
            let mut s = String::new();
            s.append(sub);
            s.append(": ");
            s.append(e);
            s
        },
    }
}

/// Text of [`err_cli_root`].
pub open spec fn err_cli_root_text(lang: Lang, e: Seq<char>) -> Seq<char> {
    match lang {
        Lang::Ja => "scratch root の解決に失敗: "@ + e,
        Lang::En => "Failed to resolve scratch root: "@ + e,
    }
}

pub fn err_cli_root(lang: Lang, e: &str) -> (s: String)
    ensures
        s@ == err_cli_root_text(lang, e@),
{
    match lang {
        Lang::Ja => {
            let mut s = String::new();
            s.append("scratch root の解決に失敗: ");
            s.append(e);
            s
        },
        Lang::En => {
            let mut s = String::new();
            s.append("Failed to resolve scratch root: ");
            s.append(e);
            s
        },
    }
}

/// Text of [`err_cli_not_a_directory`].
pub open spec fn err_cli_not_a_directory_text(lang: Lang, path: Seq<char>) -> Seq<char> {
    match lang {
        Lang::Ja => "shell: ディレクトリではありません: "@ + path,
        Lang::En => "shell: not a directory: "@ + path,
    }
}

pub fn err_cli_not_a_directory(lang: Lang, path: &str) -> (s: String)
    ensures
        s@ == err_cli_not_a_directory_text(lang, path@),
{
    match lang {
        Lang::Ja => {
            let mut s = String::new();
            s.append("shell: ディレクトリではありません: ");
            s.append(path);
            s
        },
        Lang::En => {
            let mut s = String::new();
            s.append("shell: not a directory: ");
            s.append(path);
            s
        },
    }
}

/// Text of [`err_cli_rm_dir_needs_r`].
pub open spec fn err_cli_rm_dir_needs_r_text(lang: Lang, name: Seq<char>) -> Seq<char> {
    match lang {
        Lang::Ja => "rm: ディレクトリの削除には -r が必要です: "@ + name,
        Lang::En => "rm: cannot remove directory '"@ + name + "' without -r"@,
    }
}

pub fn err_cli_rm_dir_needs_r(lang: Lang, name: &str) -> (s: String)
    ensures
        s@ == err_cli_rm_dir_needs_r_text(lang, name@),
{
    match lang {
        Lang::Ja => {
            let mut s = String::new();
            s.append("rm: ディレクトリの削除には -r が必要です: ");
            s.append(name);
            s
        },
        Lang::En => {
            let mut s = String::new();
            s.append("rm: cannot remove directory '");
            s.append(name);
            s.append("' without -r");
            s
        },
    }
}

/// Text of [`status_cli_rm_cancelled`].
pub open spec fn status_cli_rm_cancelled_text(lang: Lang) -> Seq<char> {
    match lang {
        Lang::Ja => "rm: キャンセルしました"@,
        Lang::En => "rm: cancelled"@,
    }
}

pub fn status_cli_rm_cancelled(lang: Lang) -> (s: &'static str)
    ensures
        s@ == status_cli_rm_cancelled_text(lang),
{
    match lang {
        Lang::Ja => "rm: キャンセルしました",
        Lang::En => "rm: cancelled",
    }
}

/// Text of [`config_title`].
pub open spec fn config_title_text(lang: Lang) -> Seq<char> {
    match lang {
        Lang::Ja => " 設定 "@,
        Lang::En => " Configuration "@,
    }
}

pub fn config_title(lang: Lang) -> (s: &'static str)
    ensures
        s@ == config_title_text(lang),
{
    match lang {
        Lang::Ja => " 設定 ",
        Lang::En => " Configuration ",
    }
}

/// Text of [`config_section_general`].
pub open spec fn config_section_general_text(lang: Lang) -> Seq<char> {
    match lang {
        Lang::Ja => "一般"@,
        Lang::En => "general"@,
    }
}

pub fn config_section_general(lang: Lang) -> (s: &'static str)
    ensures
        s@ == config_section_general_text(lang),
{
    match lang {
        Lang::Ja => "一般",
        Lang::En => "general",
    }
}

/// Text of [`config_section_archive`].
pub open spec fn config_section_archive_text(_lang: Lang) -> Seq<char> {
    "archive"@
}

pub fn config_section_archive(_lang: Lang) -> (s: &'static str)
    ensures
        s@ == config_section_archive_text(_lang),
{
    "archive"
}

/// Text of [`config_source_env`].
pub open spec fn config_source_env_text(_lang: Lang, var: Seq<char>) -> Seq<char> {
    "(env: "@ + var + ")"@
}

pub fn config_source_env(_lang: Lang, var: &str) -> (s: String)
    ensures
        s@ == config_source_env_text(_lang, var@),
{
    {
        let mut s = String::new();
        s.append("(env: ");
        s.append(var);
        s.append(")");
        s
    }
}

/// Text of [`config_source_config`].
pub open spec fn config_source_config_text(_lang: Lang) -> Seq<char> {
    "(config)"@
}

pub fn config_source_config(_lang: Lang) -> (s: &'static str)
    ensures
        s@ == config_source_config_text(_lang),
{
    "(config)"
}

/// Text of [`config_source_default`].
pub open spec fn config_source_default_text(_lang: Lang) -> Seq<char> {
    "(default)"@
}

pub fn config_source_default(_lang: Lang) -> (s: &'static str)
    ensures
        s@ == config_source_default_text(_lang),
{
    "(default)"
}

/// Text of [`config_env_override_badge`].
pub open spec fn config_env_override_badge_text(lang: Lang) -> Seq<char> {
    match lang {
        Lang::Ja => "⚠ env が優先"@,
        Lang::En => "⚠ env override"@,
    }
}

pub fn config_env_override_badge(lang: Lang) -> (s: &'static str)
    ensures
        s@ == config_env_override_badge_text(lang),
{
    match lang {
        Lang::Ja => "⚠ env が優先",
        Lang::En => "⚠ env override",
    }
}

/// Text of [`config_saves_to`].
pub open spec fn config_saves_to_text(lang: Lang, path: Seq<char>) -> Seq<char> {
    match lang {
        Lang::Ja => "保存先: "@ + path,
        Lang::En => "Saves to: "@ + path,
    }
}

pub fn config_saves_to(lang: Lang, path: &str) -> (s: String)
    ensures
        s@ == config_saves_to_text(lang, path@),
{
    match lang {
        Lang::Ja => {
            let mut s = String::new();
            s.append("保存先: ");
            s.append(path);
            s
        },
        Lang::En => {
            let mut s = String::new();
            s.append("Saves to: ");
            s.append(path);
            s
        },
    }
}

/// Text of [`config_saves_to_unknown`].
pub open spec fn config_saves_to_unknown_text(lang: Lang) -> Seq<char> {
    match lang {
        Lang::Ja => "保存先: $HOME も $XDG_CONFIG_HOME も解決できないため保存不能"@,
        Lang::En => "Saves to: cannot save (neither $HOME nor $XDG_CONFIG_HOME resolves)"@,
    }
}

pub fn config_saves_to_unknown(lang: Lang) -> (s: &'static str)
    ensures
        s@ == config_saves_to_unknown_text(lang),
{
    match lang {
        Lang::Ja => "保存先: $HOME も $XDG_CONFIG_HOME も解決できないため保存不能",
        Lang::En => "Saves to: cannot save (neither $HOME nor $XDG_CONFIG_HOME resolves)",
    }
}

/// Text of [`config_env_override_note`].
pub open spec fn config_env_override_note_text(lang: Lang, var: Seq<char>) -> Seq<char> {
    match lang {
        Lang::Ja => "⚠ 現在は env $"@ + var + " で上書きされています。config.toml には保存しますが、起動時は env が優先されます。"@,
        Lang::En => "⚠ Currently overridden by env $"@ + var + ". Saving will update config.toml but the env var will take precedence at startup."@,
    }
}

pub fn config_env_override_note(lang: Lang, var: &str) -> (s: String)
    ensures
        s@ == config_env_override_note_text(lang, var@),
{
    match lang {
        Lang::Ja => {
            let mut s = String::new();
            s.append("⚠ 現在は env $");
            s.append(var);
            s.append(" で上書きされています。config.toml には保存しますが、起動時は env が優先されます。");
            s
        },
        Lang::En => {
            let mut s = String::new();
            s.append("⚠ Currently overridden by env $");
            s.append(var);
            s.append(". Saving will update config.toml but the env var will take precedence at startup.");
            s
        },
    }
}

/// Text of [`footer_config`].
pub open spec fn footer_config_text(lang: Lang) -> Seq<char> {
    match lang {
        Lang::Ja => "↑↓:選択  Enter:編集  Space:toggle  s:保存  Esc:戻る"@,
        Lang::En => "↑↓:select  Enter:edit  Space:toggle  s:save  Esc:back"@,
    }
}

pub fn footer_config(lang: Lang) -> (s: &'static str)
    ensures
        s@ == footer_config_text(lang),
{
    match lang {
        Lang::Ja => "↑↓:選択  Enter:編集  Space:toggle  s:保存  Esc:戻る",
        Lang::En => "↑↓:select  Enter:edit  Space:toggle  s:save  Esc:back",
    }
}

/// Text of [`footer_config_edit`].
pub open spec fn footer_config_edit_text(lang: Lang) -> Seq<char> {
    match lang {
        Lang::Ja => "Enter:確定  Esc:キャンセル"@,
        Lang::En => "Enter:confirm  Esc:cancel"@,
    }
}

pub fn footer_config_edit(lang: Lang) -> (s: &'static str)
    ensures
        s@ == footer_config_edit_text(lang),
{
    match lang {
        Lang::Ja => "Enter:確定  Esc:キャンセル",
        Lang::En => "Enter:confirm  Esc:cancel",
    }
}

/// Text of [`footer_config_keep`].
pub open spec fn footer_config_keep_text(lang: Lang) -> Seq<char> {
    match lang {
        Lang::Ja => "↑↓:選択  a:追加  d:削除  Enter:編集  Esc:戻る"@,
        Lang::En => "↑↓:select  a:add  d:remove  Enter:edit  Esc:back"@,
    }
}

pub fn footer_config_keep(lang: Lang) -> (s: &'static str)
    ensures
        s@ == footer_config_keep_text(lang),
{
    match lang {
        Lang::Ja => "↑↓:選択  a:追加  d:削除  Enter:編集  Esc:戻る",
        Lang::En => "↑↓:select  a:add  d:remove  Enter:edit  Esc:back",
    }
}

/// Text of [`status_config_saved`].
pub open spec fn status_config_saved_text(lang: Lang, path: Seq<char>) -> Seq<char> {
    match lang {
        Lang::Ja => "保存しました: "@ + path,
        Lang::En => "Saved: "@ + path,
    }
}

pub fn status_config_saved(lang: Lang, path: &str) -> (s: String)
    ensures
        s@ == status_config_saved_text(lang, path@),
{
    match lang {
        Lang::Ja => {
            let mut s = String::new();
            s.append("保存しました: ");
            s.append(path);
            s
        },
        Lang::En => {
            let mut s = String::new();
            s.append("Saved: ");
            s.append(path);
            s
        },
    }
}

/// Text of [`status_config_save_failed`].
pub open spec fn status_config_save_failed_text(lang: Lang, e: Seq<char>) -> Seq<char> {
    match lang {
        Lang::Ja => "保存に失敗: "@ + e,
        Lang::En => "Failed to save: "@ + e,
    }
}

pub fn status_config_save_failed(lang: Lang, e: &str) -> (s: String)
    ensures
        s@ == status_config_save_failed_text(lang, e@),
{
    match lang {
        Lang::Ja => {
            let mut s = String::new();
            s.append("保存に失敗: ");
            s.append(e);
            s
        },
        Lang::En => {
            let mut s = String::new();
            s.append("Failed to save: ");
            s.append(e);
            s
        },
    }
}

/// Text of [`status_config_invalid_number`].
pub open spec fn status_config_invalid_number_text(lang: Lang) -> Seq<char> {
    match lang {
        Lang::Ja => "数値として解釈できません (0 以上の整数を入力)"@,
        Lang::En => "Not a valid non-negative integer"@,
    }
}

pub fn status_config_invalid_number(lang: Lang) -> (s: &'static str)
    ensures
        s@ == status_config_invalid_number_text(lang),
{
    match lang {
        Lang::Ja => "数値として解釈できません (0 以上の整数を入力)",
        Lang::En => "Not a valid non-negative integer",
    }
}

/// Text of [`status_config_ttl_too_large`].
pub open spec fn status_config_ttl_too_large_text(lang: Lang) -> Seq<char> {
    match lang {
        Lang::Ja => "値が大きすぎます (ttl_days * 86_400 が u64 を超えます)"@,
        Lang::En => "Value too large (ttl_days * 86_400 would overflow u64)"@,
    }
}

pub fn status_config_ttl_too_large(lang: Lang) -> (s: &'static str)
    ensures
        s@ == status_config_ttl_too_large_text(lang),
{
    match lang {
        Lang::Ja => "値が大きすぎます (ttl_days * 86_400 が u64 を超えます)",
        Lang::En => "Value too large (ttl_days * 86_400 would overflow u64)",
    }
}

/// Text of [`status_config_no_save_path`].
pub open spec fn status_config_no_save_path_text(lang: Lang) -> Seq<char> {
    match lang {
        Lang::Ja => "保存先のパスが解決できません ($HOME も $XDG_CONFIG_HOME も未設定)"@,
        Lang::En => "No save path resolves ($HOME and $XDG_CONFIG_HOME both unset)"@,
    }
}

pub fn status_config_no_save_path(lang: Lang) -> (s: &'static str)
    ensures
        s@ == status_config_no_save_path_text(lang),
{
    match lang {
        Lang::Ja => "保存先のパスが解決できません ($HOME も $XDG_CONFIG_HOME も未設定)",
        Lang::En => "No save path resolves ($HOME and $XDG_CONFIG_HOME both unset)",
    }
}

/// Text of [`config_keep_title`].
pub open spec fn config_keep_title_text(lang: Lang) -> Seq<char> {
    match lang {
        Lang::Ja => " archive.keep "@,
        Lang::En => " archive.keep "@,
    }
}

pub fn config_keep_title(lang: Lang) -> (s: &'static str)
    ensures
        s@ == config_keep_title_text(lang),
{
    match lang {
        Lang::Ja => " archive.keep ",
        Lang::En => " archive.keep ",
    }
}

/// Text of [`config_keep_empty`].
pub open spec fn config_keep_empty_text(lang: Lang) -> Seq<char> {
    match lang {
        Lang::Ja => "  (空)  a で追加"@,
        Lang::En => "  (empty)  press a to add"@,
    }
}

pub fn config_keep_empty(lang: Lang) -> (s: &'static str)
    ensures
        s@ == config_keep_empty_text(lang),
{
    match lang {
        Lang::Ja => "  (空)  a で追加",
        Lang::En => "  (empty)  press a to add",
    }
}

/// Text of [`config_input_title`].
pub open spec fn config_input_title_text(lang: Lang, key: Seq<char>) -> Seq<char> {
    match lang {
        Lang::Ja => " 編集: "@ + key + " "@,
        Lang::En => " Edit: "@ + key + " "@,
    }
}

pub fn config_input_title(lang: Lang, key: &str) -> (s: String)
    ensures
        s@ == config_input_title_text(lang, key@),
{
    match lang {
        Lang::Ja => {
            let mut s = String::new();
            s.append(" 編集: ");
            s.append(key);
            s.append(" ");
            s
        },
        Lang::En => {
            let mut s = String::new();
            s.append(" Edit: ");
            s.append(key);
            s.append(" ");
            s
        },
    }
}


} // verus!
