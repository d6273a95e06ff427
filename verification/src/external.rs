//! External programs: which editor or shell to run, how its command line splits into words,
//! the environment of an action's command and the exit code of a finished program.
use vstd::prelude::*;
use vstd::string::*;

use crate::i18n::{err_command_empty, err_command_empty_text, err_command_parse, err_command_parse_text, Lang};
use crate::path::{file_name, path_file_name};
use crate::scratch::opt_str;
use crate::text::owned;

verus! {

/// shell-words' parse error.
#[verifier::external_type_specification]
#[verifier::external_body]
pub struct ExShellParseError(shell_words::ParseError);

/// The words that shell-words' `split` makes of a command line (quotes and backslashes
/// resolved), or `None` when a quote is left open.
pub uninterp spec fn shell_words_of(text: Seq<char>) -> Option<Seq<Seq<char>>>;

pub open spec fn words_view(v: Seq<String>) -> Seq<Seq<char>> {
    v.map_values(|w: String| w@)
}

/// shell-words' `split`: a command line split into words by the shell's quoting rules, or its
/// parse error. The contract names the words as a function of the text.
#[verifier::external_body]
fn split_words(text: &str) -> (r: Result<Vec<String>, shell_words::ParseError>)
    ensures
        match r {
            Ok(v) => shell_words_of(text@) == Some(words_view(v@)),
            Err(_) => shell_words_of(text@) is None,
        },
{
    shell_words::split(text)
}

/// The text of shell-words' parse error: its `Display` writes `missing closing quote`.
#[verifier::external_body]
fn parse_error_text(e: &shell_words::ParseError) -> (r: String)
    ensures
        r@ == "missing closing quote"@,
{
    e.to_string()
}

/// The first of the environment's and the configuration's values that is set and not empty,
/// else the default.
pub open spec fn first_set(env_val: Option<Seq<char>>, config_val: Option<Seq<char>>, default: Seq<char>) -> Seq<char> {
    if env_val is Some && env_val->0.len() > 0 {
        env_val->0
    } else if config_val is Some && config_val->0.len() > 0 {
        config_val->0
    } else {
        default
    }
}

/// Chooses the program to run: environment, then configuration, then the built-in default; an
/// empty value counts as unset.
pub fn resolve_external(env_val: Option<&str>, config_val: Option<&str>, default: &str) -> (r: String)
    ensures
        r@ == first_set(opt_str(env_val), opt_str(config_val), default@),
{
    if let Some(e) = env_val {
        if e.unicode_len() > 0 {
            return owned(e);
        }
    }
    if let Some(c) = config_val {
        if c.unicode_len() > 0 {
            return owned(c);
        }
    }
    owned(default)
}

/// What a command line gives: its words when there is at least one, else the error's text.
pub open spec fn argv_spec(lang: Lang, command: Seq<char>) -> Result<Seq<Seq<char>>, Seq<char>> {
    match shell_words_of(command) {
        None => Err(err_command_parse_text(lang, "missing closing quote"@)),
        Some(ws) => if ws.len() == 0 {
            Err(err_command_empty_text(lang))
        } else {
            Ok(ws)
        },
    }
}

pub open spec fn argv_view(r: Result<Vec<String>, String>) -> Result<Seq<Seq<char>>, Seq<char>> {
    match r {
        Ok(v) => Ok(words_view(v@)),
        Err(e) => Err(e@),
    }
}

/// Splits `$EDITOR`, `$SHELL` or a configured value into the program and its arguments with the
/// shell's word rules, so that `code --wait` and a quoted path with spaces both work.
pub fn command_argv(lang: Lang, command: &str) -> (r: Result<Vec<String>, String>)
    ensures
        argv_view(r) == argv_spec(lang, command@),
{
    match split_words(command) {
        Err(e) => {
            let t = parse_error_text(&e);
            Err(err_command_parse(lang, t.as_str()))
        },
        Ok(v) => if v.len() == 0 {
            Err(owned(err_command_empty(lang)))
        } else {
            Ok(v)
        },
    }
}

/// The editor's command line for a file: the chosen editor's words, then the path.
pub fn editor_argv(lang: Lang, env_editor: Option<&str>, config_editor: Option<&str>, path: &str) -> (r: Result<Vec<String>, String>)
    ensures
        argv_view(r) == (match argv_spec(lang, first_set(opt_str(env_editor), opt_str(config_editor), "vi"@)) {
            Ok(ws) => Ok(ws.push(path@)),
            Err(e) => Err(e),
        }),
{
    let editor = resolve_external(env_editor, config_editor, "vi");
    let mut argv = command_argv(lang, editor.as_str())?;
    let ghost before = argv@;
    argv.push(owned(path));
    assert(words_view(argv@) =~= words_view(before).push(path@));
    Ok(argv)
}

/// The shell's command line: the chosen shell's words (it is started in the target directory).
pub fn shell_argv(lang: Lang, env_shell: Option<&str>, config_shell: Option<&str>) -> (r: Result<Vec<String>, String>)
    ensures
        argv_view(r) == argv_spec(lang, first_set(opt_str(env_shell), opt_str(config_shell), "/bin/sh"@)),
{
    let shell = resolve_external(env_shell, config_shell, "/bin/sh");
    command_argv(lang, shell.as_str())
}

/// The environment of an action's command: the new directory, its name (empty when the path
/// has no final name) and the scratch root.
pub fn run_environment(dir: &str, root: &str) -> (r: Vec<(String, String)>)
    ensures
        r@.len() == 3,
        r@[0].0@ == "CHIRA_TARGET"@ && r@[0].1@ == dir@,
        r@[1].0@ == "CHIRA_TARGET_NAME"@ && r@[1].1@ == (match file_name(dir@) {
            Some(n) => n,
            None => Seq::<char>::empty(),
        }),
        r@[2].0@ == "CHIRA_ROOT"@ && r@[2].1@ == root@,
{
    let name = match path_file_name(dir) {
        Some(n) => n,
        None => String::new(),
    };
    let mut r: Vec<(String, String)> = Vec::new();
    r.push((owned("CHIRA_TARGET"), owned(dir)));
    r.push((owned("CHIRA_TARGET_NAME"), name));
    r.push((owned("CHIRA_ROOT"), owned(root)));
    r
}

/// The exit code of a finished program: its own code, else 128 plus the signal that ended it,
/// else 1.
pub fn exit_code(code: Option<i32>, signal: Option<i32>) -> (r: i32)
    requires
        signal matches Some(s) ==> s <= i32::MAX - 128,
    ensures
        r == (match code {
            Some(c) => c as int,
            None => match signal {
                Some(s) => 128 + s,
                None => 1,
            },
        }),
{
    match code {
        Some(c) => c,
        None => match signal {
            Some(s) => 128 + s,
            None => 1,
        },
    }
}

} // verus!
