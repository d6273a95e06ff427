//! One-shot subcommands: which words are subcommands, what their arguments mean, and the text
//! they print.
use vstd::prelude::*;
use vstd::string::*;

use crate::app::{matches_search, name_matches};
use crate::archive::{duration_spec, parse_duration, DEFAULT_ARCHIVE_DIRNAME};
use crate::cmdline::args_view;
use crate::clock::{local_time_or_dash, time_column};
use crate::i18n::{
    confirm_delete_dir, confirm_delete_dir_text, confirm_delete_file, confirm_delete_file_text,
    err_cli_arg_required, err_cli_arg_required_text, err_cli_rm_dir_needs_r, err_cli_rm_dir_needs_r_text,
    err_cli_too_many_args, err_cli_too_many_args_text, err_cli_unknown_flag, err_cli_unknown_flag_text,
    err_gc_ttl_invalid, err_gc_ttl_invalid_text, err_gc_ttl_missing, err_gc_ttl_missing_text,
    err_option_needs_arg, err_option_needs_arg_text, err_unknown_subcommand, err_unknown_subcommand_text, Lang,
};
use crate::path::{is_absolute, join, join_path};
use crate::scratch::{expand_tilde, opt_str, opt_string, res_view, tilde_expansion, Entry};
use crate::text::{chars_of, concat3, decimal, decimal_string, has_prefix, owned, starts_with, str_eq, trim, trimmed};

verus! {

/// The subcommands, by name.
pub open spec fn subcommand_names() -> Seq<Seq<char>> {
    seq!["ls"@, "tree"@, "new"@, "mkdir"@, "edit"@, "shell"@, "rm"@, "mv"@, "path"@, "find"@, "gc"@]
}

/// Whether a word names a subcommand.
pub fn is_subcommand(s: &str) -> (r: bool)
    ensures
        r == subcommand_names().contains(s@),
{
    let names = ["ls", "tree", "new", "mkdir", "edit", "shell", "rm", "mv", "path", "find", "gc"];
    proof {
        reveal_strlit("ls");
        reveal_strlit("tree");
        reveal_strlit("new");
        reveal_strlit("mkdir");
        reveal_strlit("edit");
        reveal_strlit("shell");
        reveal_strlit("rm");
        reveal_strlit("mv");
        reveal_strlit("path");
        reveal_strlit("find");
        reveal_strlit("gc");
    }
    let mut i: usize = 0;
    while i < 11
        invariant
            i <= 11,
            forall|k: int| 0 <= k < 11 ==> #[trigger] names@[k]@ == subcommand_names()[k],
            forall|k: int| 0 <= k < i ==> subcommand_names()[k] != s@,
        decreases 11 - i,
    {
        if str_eq(names[i], s) {
            assert(subcommand_names()[i as int] == s@);
            return true;
        }
        i = i + 1;
    }
    assert(!subcommand_names().contains(s@)) by {
        if subcommand_names().contains(s@) {
            let k = choose|k: int| 0 <= k < subcommand_names().len() && subcommand_names()[k] == s@;
            assert(subcommand_names()[k] != s@);
        }
    }
    false
}

/// A subcommand with its arguments read.
#[allow(inconsistent_fields)]
#[derive(Debug, PartialEq, Eq)]
pub enum Command {
    Ls { long: bool, path: Option<String> },
    Tree { path: Option<String> },
    New { name: Option<String>, no_edit: bool },
    Mkdir { name: Option<String> },
    Edit { name: String },
    Shell { dir: Option<String> },
    Rm { name: String, force: bool, recursive: bool },
    Mv { old: String, new: String },
    Path { name: Option<String> },
    Find { query: String, path: Option<String>, long: bool },
    Gc { ttl: Option<String>, archive_dir: Option<String>, dry_run: bool },
}

#[allow(inconsistent_fields)]
pub ghost enum CommandV {
    Ls { long: bool, path: Option<Seq<char>> },
    Tree { path: Option<Seq<char>> },
    New { name: Option<Seq<char>>, no_edit: bool },
    Mkdir { name: Option<Seq<char>> },
    Edit { name: Seq<char> },
    Shell { dir: Option<Seq<char>> },
    Rm { name: Seq<char>, force: bool, recursive: bool },
    Mv { old: Seq<char>, new: Seq<char> },
    Path { name: Option<Seq<char>> },
    Find { query: Seq<char>, path: Option<Seq<char>>, long: bool },
    Gc { ttl: Option<Seq<char>>, archive_dir: Option<Seq<char>>, dry_run: bool },
}

impl View for Command {
    type V = CommandV;

    open spec fn view(&self) -> CommandV {
        match self {
            Command::Ls { long, path } => CommandV::Ls { long: *long, path: opt_string(*path) },
            Command::Tree { path } => CommandV::Tree { path: opt_string(*path) },
            Command::New { name, no_edit } => CommandV::New { name: opt_string(*name), no_edit: *no_edit },
            Command::Mkdir { name } => CommandV::Mkdir { name: opt_string(*name) },
            Command::Edit { name } => CommandV::Edit { name: name@ },
            Command::Shell { dir } => CommandV::Shell { dir: opt_string(*dir) },
            Command::Rm { name, force, recursive } => CommandV::Rm { name: name@, force: *force, recursive: *recursive },
            Command::Mv { old, new } => CommandV::Mv { old: old@, new: new@ },
            Command::Path { name } => CommandV::Path { name: opt_string(*name) },
            Command::Find { query, path, long } => CommandV::Find { query: query@, path: opt_string(*path), long: *long },
            Command::Gc { ttl, archive_dir, dry_run } => CommandV::Gc {
                ttl: opt_string(*ttl),
                archive_dir: opt_string(*archive_dir),
                dry_run: *dry_run,
            },
        }
    }
}

/// What a subcommand invocation comes to before any file is touched.
#[derive(Debug, PartialEq, Eq)]
pub enum Plan {
    /// `-h` / `--help` among the arguments: print the usage, exit 0.
    Usage,
    /// Run the command.
    Run(Command),
    /// The arguments are wrong: print the message, exit 2.
    BadArgs(String),
    /// Not a subcommand: print the message, exit 2.
    UnknownSubcommand(String),
}

pub ghost enum PlanV {
    Usage,
    Run(CommandV),
    BadArgs(Seq<char>),
    UnknownSubcommand(Seq<char>),
}

impl View for Plan {
    type V = PlanV;

    open spec fn view(&self) -> PlanV {
        match self {
            Plan::Usage => PlanV::Usage,
            Plan::Run(c) => PlanV::Run(c@),
            Plan::BadArgs(m) => PlanV::BadArgs(m@),
            Plan::UnknownSubcommand(m) => PlanV::UnknownSubcommand(m@),
        }
    }
}

/// The flags a subcommand knows, and the two switches each sets: `ls`/`find` `-l` (long),
/// `new --no-edit`, `rm -f` (first) and `rm -r` (second), with `-rf` and its spellings setting both.
pub open spec fn flag_bits(sub: Seq<char>, arg: Seq<char>) -> Option<(bool, bool)> {
    if (sub == "ls"@ || sub == "find"@) && (arg == "-l"@ || arg == "--long"@) {
        Some((true, false))
    } else if sub == "new"@ && arg == "--no-edit"@ {
        Some((true, false))
    } else if sub == "rm"@ && (arg == "-f"@ || arg == "--force"@) {
        Some((true, false))
    } else if sub == "rm"@ && (arg == "-r"@ || arg == "-R"@ || arg == "--recursive"@) {
        Some((false, true))
    } else if sub == "rm"@ && (arg == "-rf"@ || arg == "-fr"@ || arg == "-Rf"@ || arg == "-fR"@) {
        Some((true, true))
    } else {
        None
    }
}

/// How many words a subcommand takes besides flags before it reports too many (`mv` counts
/// them afterwards).
pub open spec fn max_positional(sub: Seq<char>) -> Option<nat> {
    if sub == "find"@ {
        Some(2)
    } else if sub == "mv"@ {
        None
    } else {
        Some(1)
    }
}

/// The arguments read so far: the two switches and the plain words.
pub ghost struct ScanV {
    pub first: bool,
    pub second: bool,
    pub words: Seq<Seq<char>>,
}

/// Reads the arguments left to right; the first wrong one decides the error.
pub open spec fn scan(lang: Lang, sub: Seq<char>, args: Seq<Seq<char>>) -> Result<ScanV, Seq<char>>
    decreases args.len(),
{
    if args.len() == 0 {
        Ok(ScanV { first: false, second: false, words: Seq::<Seq<char>>::empty() })
    } else {
        match scan(lang, sub, args.drop_last()) {
            Err(e) => Err(e),
            Ok(s) => {
                let x = args.last();
                match flag_bits(sub, x) {
                    Some(bits) => Ok(ScanV { first: s.first || bits.0, second: s.second || bits.1, words: s.words }),
                    None => if starts_with(x, "-"@) {
                        Err(err_cli_unknown_flag_text(lang, sub, x))
                    } else if max_positional(sub) matches Some(m) && s.words.len() >= m {
                        Err(err_cli_too_many_args_text(lang, sub))
                    } else {
                        Ok(ScanV { words: s.words.push(x), ..s })
                    },
                }
            },
        }
    }
}

pub open spec fn first_word(s: ScanV) -> Option<Seq<char>> {
    if s.words.len() > 0 {
        Some(s.words[0])
    } else {
        None
    }
}

pub open spec fn required(lang: Lang, sub: Seq<char>, what: Seq<char>, s: ScanV, c: CommandV) -> PlanV {
    if s.words.len() == 0 {
        PlanV::BadArgs(err_cli_arg_required_text(lang, sub, what))
    } else {
        PlanV::Run(c)
    }
}

/// The command that well-formed arguments give.
pub open spec fn command_for(lang: Lang, sub: Seq<char>, s: ScanV) -> PlanV {
    if sub == "ls"@ {
        PlanV::Run(CommandV::Ls { long: s.first, path: first_word(s) })
    } else if sub == "tree"@ {
        PlanV::Run(CommandV::Tree { path: first_word(s) })
    } else if sub == "new"@ {
        PlanV::Run(CommandV::New { name: first_word(s), no_edit: s.first })
    } else if sub == "mkdir"@ {
        PlanV::Run(CommandV::Mkdir { name: first_word(s) })
    } else if sub == "edit"@ {
        required(lang, sub, "<name>"@, s, CommandV::Edit { name: s.words[0] })
    } else if sub == "shell"@ {
        PlanV::Run(CommandV::Shell { dir: first_word(s) })
    } else if sub == "rm"@ {
        required(lang, sub, "<name>"@, s, CommandV::Rm { name: s.words[0], force: s.first, recursive: s.second })
    } else if sub == "mv"@ {
        if s.words.len() != 2 {
            PlanV::BadArgs(err_cli_arg_required_text(lang, sub, "<old> <new>"@))
        } else {
            PlanV::Run(CommandV::Mv { old: s.words[0], new: s.words[1] })
        }
    } else if sub == "path"@ {
        PlanV::Run(CommandV::Path { name: first_word(s) })
    } else {
        required(lang, sub, "<query>"@, s, CommandV::Find {
            query: s.words[0],
            path: if s.words.len() > 1 {
                Some(s.words[1])
            } else {
                None
            },
            long: s.first,
        })
    }
}

/// `gc`'s options from `i` on: `--dry-run`, and `--ttl` and `--archive-dir` each followed by
/// its value; any other word is an error.
pub open spec fn gc_from(
    lang: Lang,
    args: Seq<Seq<char>>,
    i: int,
    ttl: Option<Seq<char>>,
    dir: Option<Seq<char>>,
    dry_run: bool,
) -> Result<CommandV, Seq<char>>
    decreases args.len() + 2 - i,
{
    if i < 0 || i >= args.len() {
        Ok(CommandV::Gc { ttl, archive_dir: dir, dry_run })
    } else if args[i] == "--dry-run"@ {
        gc_from(lang, args, i + 1, ttl, dir, true)
    } else if args[i] == "--ttl"@ || args[i] == "--archive-dir"@ {
        if i + 1 < args.len() {
            if args[i] == "--ttl"@ {
                gc_from(lang, args, i + 2, Some(args[i + 1]), dir, dry_run)
            } else {
                gc_from(lang, args, i + 2, ttl, Some(args[i + 1]), dry_run)
            }
        } else {
            Err(err_option_needs_arg_text(lang, args[i]))
        }
    } else if starts_with(args[i], "-"@) {
        Err(err_cli_unknown_flag_text(lang, "gc"@, args[i]))
    } else {
        Err(err_cli_too_many_args_text(lang, "gc"@))
    }
}

/// What `chira <sub> <args>` comes to: usage when help is asked for anywhere, else the
/// command its arguments describe, or the first error in them.
pub open spec fn plan_spec(lang: Lang, sub: Seq<char>, args: Seq<Seq<char>>) -> PlanV {
    if args.contains("-h"@) || args.contains("--help"@) {
        PlanV::Usage
    } else if !subcommand_names().contains(sub) {
        PlanV::UnknownSubcommand(err_unknown_subcommand_text(lang, sub))
    } else if sub == "gc"@ {
        match gc_from(lang, args, 0, None, None, false) {
            Ok(c) => PlanV::Run(c),
            Err(e) => PlanV::BadArgs(e),
        }
    } else {
        match scan(lang, sub, args) {
            Err(e) => PlanV::BadArgs(e),
            Ok(s) => command_for(lang, sub, s),
        }
    }
}

fn flag_of(sub: &str, arg: &str) -> (r: Option<(bool, bool)>)
    ensures
        r == flag_bits(sub@, arg@),
{
    let ls = str_eq(sub, "ls") || str_eq(sub, "find");
    let long = str_eq(arg, "-l") || str_eq(arg, "--long");
    if ls && long {
        return Some((true, false));
    }
    if str_eq(sub, "new") && str_eq(arg, "--no-edit") {
        return Some((true, false));
    }
    if str_eq(sub, "rm") {
        if str_eq(arg, "-f") || str_eq(arg, "--force") {
            return Some((true, false));
        }
        if str_eq(arg, "-r") || str_eq(arg, "-R") || str_eq(arg, "--recursive") {
            return Some((false, true));
        }
        if str_eq(arg, "-rf") || str_eq(arg, "-fr") || str_eq(arg, "-Rf") || str_eq(arg, "-fR") {
            return Some((true, true));
        }
    }
    None
}

fn max_words(sub: &str) -> (r: Option<usize>)
    ensures
        match r {
            Some(m) => max_positional(sub@) == Some(m as nat),
            None => max_positional(sub@) is None,
        },
{
    if str_eq(sub, "find") {
        Some(2)
    } else if str_eq(sub, "mv") {
        None
    } else {
        Some(1)
    }
}

fn is_flag(a: &str) -> (r: bool)
    ensures
        r == starts_with(a@, "-"@),
{
    let v = chars_of(a);
    let dash = ['-'];
    proof {
        reveal_strlit("-");
        assert("-"@ =~= dash@);
    }
    has_prefix(&v, &dash)
}

proof fn lemma_scan_error_persists(lang: Lang, sub: Seq<char>, args: Seq<Seq<char>>, k: int)
    requires
        0 <= k <= args.len(),
        scan(lang, sub, args.subrange(0, k)) is Err,
    ensures
        scan(lang, sub, args) == scan(lang, sub, args.subrange(0, k)),
    decreases args.len(),
{
    if k == args.len() {
        assert(args.subrange(0, k) =~= args);
    } else {
        assert(args.drop_last().subrange(0, k) =~= args.subrange(0, k));
        lemma_scan_error_persists(lang, sub, args.drop_last(), k);
    }
}

proof fn lemma_subcommand_cases(sub: Seq<char>)
    requires
        subcommand_names().contains(sub),
    ensures
        sub == "ls"@ || sub == "tree"@ || sub == "new"@ || sub == "mkdir"@ || sub == "edit"@
            || sub == "shell"@ || sub == "rm"@ || sub == "mv"@ || sub == "path"@ || sub == "find"@
            || sub == "gc"@,
{
    let k = choose|k: int| 0 <= k < subcommand_names().len() && subcommand_names()[k] == sub;
    assert(0 <= k < 11);
}

fn scan_args(lang: Lang, sub: &str, args: &Vec<String>) -> (r: Result<(bool, bool, Vec<String>), String>)
    ensures
        match r {
            Ok((a, b, w)) => scan(lang, sub@, args_view(args@)) == Ok::<ScanV, Seq<char>>(ScanV { first: a, second: b, words: args_view(w@) }),
            Err(e) => scan(lang, sub@, args_view(args@)) == Err::<ScanV, Seq<char>>(e@),
        },
{
    let ghost av = args_view(args@);
    let mut first = false;
    let mut second = false;
    let mut words: Vec<String> = Vec::new();
    let max = max_words(sub);
    assert(av.subrange(0, 0) =~= Seq::<Seq<char>>::empty());
    assert(args_view(words@) =~= Seq::<Seq<char>>::empty());
    let mut i: usize = 0;
    while i < args.len()
        invariant
            i <= args@.len(),
            av == args_view(args@),
            match max {
                Some(m) => max_positional(sub@) == Some(m as nat),
                None => max_positional(sub@) is None,
            },
            scan(lang, sub@, av.subrange(0, i as int)) == Ok::<ScanV, Seq<char>>(ScanV { first, second, words: args_view(words@) }),
        decreases args.len() - i,
    {
        let x = &args[i];
        assert(av.subrange(0, i + 1).drop_last() =~= av.subrange(0, i as int));
        assert(av.subrange(0, i + 1).last() == x@);
        match flag_of(sub, x.as_str()) {
            Some((p, q)) => {
                first = first || p;
                second = second || q;
            },
            None => {
                if is_flag(x.as_str()) {
                    proof {
                        lemma_scan_error_persists(lang, sub@, av, i + 1);
                    }
                    return Err(err_cli_unknown_flag(lang, sub, x.as_str()));
                }
                if let Some(m) = max {
                    if words.len() >= m {
                        proof {
                            lemma_scan_error_persists(lang, sub@, av, i + 1);
                        }
                        return Err(err_cli_too_many_args(lang, sub));
                    }
                }
                let ghost before = words@;
                words.push(x.clone());
                assert(args_view(words@) =~= args_view(before).push(x@));
            },
        }
        i = i + 1;
    }
    assert(av.subrange(0, av.len() as int) =~= av);
    Ok((first, second, words))
}

fn has_help(args: &Vec<String>) -> (r: bool)
    ensures
        r == (args_view(args@).contains("-h"@) || args_view(args@).contains("--help"@)),
{
    let ghost av = args_view(args@);
    let mut i: usize = 0;
    while i < args.len()
        invariant
            i <= args@.len(),
            av == args_view(args@),
            forall|k: int| 0 <= k < i ==> av[k] != "-h"@ && av[k] != "--help"@,
        decreases args.len() - i,
    {
        if str_eq(args[i].as_str(), "-h") || str_eq(args[i].as_str(), "--help") {
            assert(av[i as int] == args@[i as int]@);
            return true;
        }
        i = i + 1;
    }
    assert(!av.contains("-h"@)) by {
        if av.contains("-h"@) {
            let k = choose|k: int| 0 <= k < av.len() && av[k] == "-h"@;
            assert(av[k] != "-h"@);
        }
    }
    assert(!av.contains("--help"@)) by {
        if av.contains("--help"@) {
            let k = choose|k: int| 0 <= k < av.len() && av[k] == "--help"@;
            assert(av[k] != "--help"@);
        }
    }
    false
}

fn take_first(w: &Vec<String>) -> (r: Option<String>)
    ensures
        opt_string(r) == (if w@.len() > 0 {
            Some(w@[0]@)
        } else {
            None::<Seq<char>>
        }),
{
    if w.len() > 0 {
        Some(w[0].clone())
    } else {
        None
    }
}

/// The subcommand names differ from one another.
proof fn lemma_names_distinct()
    ensures
        subcommand_names()[0] == "ls"@ && subcommand_names()[9] == "find"@,
        "ls"@ != "rm"@ && "ls"@ != "mv"@ && "rm"@ != "mv"@,
        "gc"@ != "ls"@ && "gc"@ != "rm"@ && "gc"@ != "mv"@ && "gc"@.len() == 2,
        "tree"@ != "edit"@ && "tree"@ != "path"@ && "tree"@ != "find"@,
        "edit"@ != "path"@ && "edit"@ != "find"@ && "path"@ != "find"@,
        "mkdir"@ != "shell"@,
        "ls"@.len() == 2 && "rm"@.len() == 2 && "mv"@.len() == 2 && "new"@.len() == 3,
        "tree"@.len() == 4 && "edit"@.len() == 4 && "path"@.len() == 4 && "find"@.len() == 4,
        "mkdir"@.len() == 5 && "shell"@.len() == 5,
{
    reveal_strlit("ls");
    reveal_strlit("tree");
    reveal_strlit("new");
    reveal_strlit("mkdir");
    reveal_strlit("edit");
    reveal_strlit("shell");
    reveal_strlit("rm");
    reveal_strlit("mv");
    reveal_strlit("path");
    reveal_strlit("find");
    reveal_strlit("gc");
    assert("gc"@[0] != "ls"@[0] && "gc"@[0] != "rm"@[0] && "gc"@[0] != "mv"@[0]);
    assert("ls"@[0] != "rm"@[0] && "ls"@[0] != "mv"@[0] && "rm"@[0] != "mv"@[0]);
    assert("tree"@[0] != "edit"@[0] && "tree"@[0] != "path"@[0] && "tree"@[0] != "find"@[0]);
    assert("edit"@[0] != "path"@[0] && "edit"@[0] != "find"@[0] && "path"@[0] != "find"@[0]);
    assert("mkdir"@[0] != "shell"@[0]);
}

/// Reads a subcommand's arguments.
pub fn plan(lang: Lang, sub: &str, args: &Vec<String>) -> (r: Plan)
    ensures
        r@ == plan_spec(lang, sub@, args_view(args@)),
{
    if has_help(args) {
        return Plan::Usage;
    }
    if !is_subcommand(sub) {
        return Plan::UnknownSubcommand(err_unknown_subcommand(lang, sub));
    }
    proof {
        lemma_subcommand_cases(sub@);
        lemma_names_distinct();
    }
    if str_eq(sub, "gc") {
        return match gc_args(lang, args) {
            Ok(c) => Plan::Run(c),
            Err(e) => Plan::BadArgs(e),
        };
    }
    let (first, second, words) = match scan_args(lang, sub, args) {
        Ok(s) => s,
        Err(e) => {
            return Plan::BadArgs(e);
        },
    };
    let ghost s = ScanV { first, second, words: args_view(words@) };
    assert(words@.len() == s.words.len());
    assert(forall|k: int| 0 <= k < words@.len() ==> #[trigger] s.words[k] == words@[k]@);
    if str_eq(sub, "ls") {
        Plan::Run(Command::Ls { long: first, path: take_first(&words) })
    } else if str_eq(sub, "tree") {
        Plan::Run(Command::Tree { path: take_first(&words) })
    } else if str_eq(sub, "shell") {
        Plan::Run(Command::Shell { dir: take_first(&words) })
    } else if str_eq(sub, "path") {
        Plan::Run(Command::Path { name: take_first(&words) })
    } else if str_eq(sub, "new") {
        Plan::Run(Command::New { name: take_first(&words), no_edit: first })
    } else if str_eq(sub, "mkdir") {
        Plan::Run(Command::Mkdir { name: take_first(&words) })
    } else if str_eq(sub, "mv") {
        if words.len() != 2 {
            Plan::BadArgs(err_cli_arg_required(lang, sub, "<old> <new>"))
        } else {
            Plan::Run(Command::Mv { old: words[0].clone(), new: words[1].clone() })
        }
    } else {
        let what = if str_eq(sub, "find") {
            "<query>"
        } else {
            "<name>"
        };
        if words.len() == 0 {
            let m = err_cli_arg_required(lang, sub, what);
            return Plan::BadArgs(m);
        }
        let name = words[0].clone();
        if str_eq(sub, "edit") {
            Plan::Run(Command::Edit { name })
        } else if str_eq(sub, "rm") {
            Plan::Run(Command::Rm { name, force: first, recursive: second })
        } else {
            let path = if words.len() > 1 {
                Some(words[1].clone())
            } else {
                None
            };
            Plan::Run(Command::Find { query: name, path, long: first })
        }
    }
}

fn gc_args(lang: Lang, args: &Vec<String>) -> (r: Result<Command, String>)
    ensures
        match r {
            Ok(c) => gc_from(lang, args_view(args@), 0, None, None, false) == Ok::<CommandV, Seq<char>>(c@),
            Err(e) => gc_from(lang, args_view(args@), 0, None, None, false) == Err::<CommandV, Seq<char>>(e@),
        },
{
    let ghost av = args_view(args@);
    let mut ttl: Option<String> = None;
    let mut dir: Option<String> = None;
    let mut dry_run = false;
    let mut i: usize = 0;
    while i < args.len()
        invariant
            i <= args@.len(),
            av == args_view(args@),
            gc_from(lang, av, 0, None, None, false) == gc_from(lang, av, i as int, opt_string(ttl), opt_string(dir), dry_run),
        decreases args.len() - i,
    {
        let a = args[i].as_str();
        if str_eq(a, "--dry-run") {
            dry_run = true;
            i = i + 1;
        } else if str_eq(a, "--ttl") || str_eq(a, "--archive-dir") {
            if i + 1 < args.len() {
                if str_eq(a, "--ttl") {
                    ttl = Some(args[i + 1].clone());
                } else {
                    dir = Some(args[i + 1].clone());
                }
                i = i + 2;
            } else {
                return Err(err_option_needs_arg(lang, a));
            }
        } else if is_flag(a) {
            return Err(err_cli_unknown_flag(lang, "gc", a));
        } else {
            return Err(err_cli_too_many_args(lang, "gc"));
        }
    }
    Ok(Command::Gc { ttl, archive_dir: dir, dry_run })
}

/// A name as `ls` prints it: plain when the output is not a terminal; on a terminal a
/// directory is bold blue with a trailing `/`.
pub open spec fn name_text(name: Seq<char>, is_dir: bool, use_color: bool) -> Seq<char> {
    if use_color && is_dir {
        "\x1b[1;34m"@ + name + "/\x1b[0m"@
    } else {
        name
    }
}

/// The name of an entry as `ls` and `find` print it.
pub fn format_name(entry: &Entry, use_color: bool) -> (r: String)
    ensures
        r@ == name_text(entry.name@, entry.is_dir, use_color),
{
    if use_color && entry.is_dir {
        concat3("\x1b[1;34m", entry.name.as_str(), "/\x1b[0m")
    } else {
        entry.name.clone()
    }
}

/// The size column: `-` for a directory or a size that could not be read.
pub open spec fn size_text(is_dir: bool, size: Option<u64>) -> Seq<char> {
    if is_dir {
        "-"@
    } else {
        match size {
            Some(n) => decimal(n as nat),
            None => "-"@,
        }
    }
}

/// The long `ls` line: modification time, size and name, separated by tabs.
pub fn ls_long_line(mtime: &str, entry: &Entry, use_color: bool, size: Option<u64>) -> (r: String)
    ensures
        r@ == mtime@ + "\t"@ + size_text(entry.is_dir, size) + "\t"@ + name_text(entry.name@, entry.is_dir, use_color),
{
    let size_col = if entry.is_dir {
        owned("-")
    } else {
        match size {
            Some(n) => decimal_string(n),
            None => owned("-"),
        }
    };
    let name = format_name(entry, use_color);
    let mut r = String::new();
    r.append(mtime);
    r.append("\t");
    r.append(size_col.as_str());
    r.append("\t");
    r.append(name.as_str());
    r
}

/// What `find` prints: the entries whose names contain `query`, ignoring case, in the order
/// given.
pub fn find_matches(entries: Vec<Entry>, query: &str) -> (r: Vec<Entry>)
    ensures
        r@ == entries@.filter(|e: Entry| matches_search(e.name@, query@)),
{
    let ghost pred = |e: Entry| matches_search(e.name@, query@);
    let mut r: Vec<Entry> = Vec::new();
    let mut i: usize = 0;
    proof {
        reveal(Seq::filter);
        assert(entries@.subrange(0, 0).filter(pred) =~= Seq::<Entry>::empty());
    }
    while i < entries.len()
        invariant
            i <= entries@.len(),
            pred == (|e: Entry| matches_search(e.name@, query@)),
            r@ == entries@.subrange(0, i as int).filter(pred),
        decreases entries.len() - i,
    {
        proof {
            assert(entries@.subrange(0, i + 1) =~= entries@.subrange(0, i as int).push(entries@[i as int]));
            entries@.subrange(0, i as int).lemma_filter_push(entries@[i as int], pred);
        }
        if name_matches(entries[i].name.as_str(), query) {
            r.push(entries[i].clone());
        }
        i = i + 1;
    }
    assert(entries@.subrange(0, entries@.len() as int) =~= entries@);
    r
}

/// One line of `ls` or `find`: the name, or with `long` the modification time in local time
/// (`-` when the clock cannot show it), the size (`size` is the entry's own size as read by the
/// caller) and the name.
pub fn format_ls_line(entry: &Entry, long: bool, use_color: bool, size: Option<u64>) -> (r: String)
    ensures
        !long ==> r@ == name_text(entry.name@, entry.is_dir, use_color),
        long ==> exists|t: Seq<char>| r@ == t + "\t"@ + size_text(entry.is_dir, size) + "\t"@ + name_text(entry.name@, entry.is_dir, use_color)
            && time_column(entry.modified, "%Y-%m-%d %H:%M:%S"@, t),
{
    if !long {
        return format_name(entry, use_color);
    }
    proof {
        reveal_strlit("%Y-%m-%d %H:%M:%S");
    }
    let mtime = local_time_or_dash(entry.modified, "%Y-%m-%d %H:%M:%S");
    let r = ls_long_line(mtime.as_str(), entry, use_color, size);
    assert(r@ == mtime@ + "\t"@ + size_text(entry.is_dir, size) + "\t"@ + name_text(entry.name@, entry.is_dir, use_color));
    r
}

/// The path a command's argument names below the root: the root itself when none is given,
/// an error for an absolute path, else the argument joined to the root. Whether it exists and
/// stays under the root is checked on the canonical paths afterwards.
pub open spec fn requested_path_spec(root: Seq<char>, rel: Option<Seq<char>>) -> Result<Seq<char>, Seq<char>> {
    match rel {
        None => Ok(root),
        Some(p) => if p.len() == 0 {
            Ok(root)
        } else if is_absolute(p) {
            Err("absolute paths are not allowed"@)
        } else {
            Ok(join(root, p))
        },
    }
}

/// The first step of resolving a command's path argument.
pub fn requested_path(root: &str, rel: Option<&str>) -> (r: Result<String, String>)
    ensures
        match r {
            Ok(p) => requested_path_spec(root@, opt_str(rel)) == Ok::<Seq<char>, Seq<char>>(p@),
            Err(e) => requested_path_spec(root@, opt_str(rel)) == Err::<Seq<char>, Seq<char>>(e@),
        },
{
    match rel {
        None => Ok(owned(root)),
        Some(p) => if p.unicode_len() == 0 {
            Ok(owned(root))
        } else if p.get_char(0) == '/' {
            Err(owned("absolute paths are not allowed"))
        } else {
            Ok(join_path(root, p))
        },
    }
}

/// Whether an answer to the deletion prompt confirms it: `y`, `Y` or `yes`, blanks around it
/// ignored.
pub open spec fn confirms_spec(line: Seq<char>) -> bool {
    trim(line) == "y"@ || trim(line) == "Y"@ || trim(line) == "yes"@
}

pub fn confirms(line: &str) -> (r: bool)
    ensures
        r == confirms_spec(line@),
{
    let t = trimmed(line);
    str_eq(t.as_str(), "y") || str_eq(t.as_str(), "Y") || str_eq(t.as_str(), "yes")
}

/// The question asked before `rm` deletes an entry.
pub fn delete_prompt(lang: Lang, entry: &Entry) -> (r: String)
    ensures
        r@ == (if entry.is_dir {
            confirm_delete_dir_text(lang, entry.name@)
        } else {
            confirm_delete_file_text(lang, entry.name@)
        }),
{
    if entry.is_dir {
        confirm_delete_dir(lang, entry.name.as_str())
    } else {
        confirm_delete_file(lang, entry.name.as_str())
    }
}

/// `rm` refuses a directory without `-r`.
pub fn rm_refusal(lang: Lang, entry: &Entry, recursive: bool) -> (r: Option<String>)
    ensures
        match r {
            Some(m) => entry.is_dir && !recursive && m@ == err_cli_rm_dir_needs_r_text(lang, entry.name@),
            None => !(entry.is_dir && !recursive),
        },
{
    if entry.is_dir && !recursive {
        Some(err_cli_rm_dir_needs_r(lang, entry.name.as_str()))
    } else {
        None
    }
}

/// `gc`'s TTL in seconds: `--ttl` when given (an error when it does not parse), else the
/// configured number of days when above zero, else an error asking for one.
pub open spec fn gc_ttl_spec(lang: Lang, cli_ttl: Option<Seq<char>>, ttl_days: Option<u64>) -> Result<nat, Seq<char>> {
    match cli_ttl {
        Some(t) => match duration_spec(t) {
            Ok(n) => Ok(n),
            Err(e) => Err(err_gc_ttl_invalid_text(lang, e)),
        },
        None => match ttl_days {
            Some(d) => if d == 0 {
                Err(err_gc_ttl_missing_text(lang))
            } else if d * 86_400 <= u64::MAX {
                Ok((d * 86_400) as nat)
            } else {
                Err(err_gc_ttl_invalid_text(lang, "duration overflow"@))
            },
            None => Err(err_gc_ttl_missing_text(lang)),
        },
    }
}

/// The TTL in seconds of the sweep the TUI runs as it starts: only with `on_startup` set and a
/// configured number of days above zero whose seconds fit a `u64`; otherwise no sweep.
pub open spec fn startup_ttl_spec(on_startup: bool, ttl_days: Option<u64>) -> Option<nat> {
    match ttl_days {
        Some(d) => if on_startup && d > 0 && d * 86_400 <= u64::MAX {
            Some((d * 86_400) as nat)
        } else {
            None
        },
        None => None,
    }
}

pub fn startup_ttl(on_startup: bool, ttl_days: Option<u64>) -> (r: Option<u64>)
    ensures
        match r {
            Some(n) => startup_ttl_spec(on_startup, ttl_days) == Some(n as nat),
            None => startup_ttl_spec(on_startup, ttl_days) is None,
        },
{
    match ttl_days {
        Some(d) => if on_startup && d > 0 && d <= u64::MAX / 86_400 {
            Some(d * 86_400)
        } else {
            None
        },
        None => None,
    }
}

pub fn gc_ttl(lang: Lang, cli_ttl: Option<&str>, ttl_days: Option<u64>) -> (r: Result<u64, String>)
    ensures
        match r {
            Ok(n) => gc_ttl_spec(lang, opt_str(cli_ttl), ttl_days) == Ok::<nat, Seq<char>>(n as nat),
            Err(e) => gc_ttl_spec(lang, opt_str(cli_ttl), ttl_days) == Err::<nat, Seq<char>>(e@),
        },
{
    match cli_ttl {
        Some(t) => match parse_duration(t) {
            Ok(n) => Ok(n),
            Err(e) => Err(err_gc_ttl_invalid(lang, e.as_str())),
        },
        None => match ttl_days {
            Some(d) => if d == 0 {
                Err(owned(err_gc_ttl_missing(lang)))
            } else if d <= u64::MAX / 86_400 {
                Ok(d * 86_400)
            } else {
                Err(err_gc_ttl_invalid(lang, "duration overflow"))
            },
            None => Err(owned(err_gc_ttl_missing(lang))),
        },
    }
}

/// Where `gc` moves entries: `--archive-dir` as given, else the configured directory with its
/// leading `~` expanded, else `.archive` under the root.
pub open spec fn archive_dir_spec(
    root: Seq<char>,
    cli_dir: Option<Seq<char>>,
    config_dir: Option<Seq<char>>,
    home: Option<Seq<char>>,
) -> Result<Seq<char>, Seq<char>> {
    match cli_dir {
        Some(d) => Ok(d),
        None => match config_dir {
            Some(d) => tilde_expansion(d, home),
            None => Ok(join(root, ".archive"@)),
        },
    }
}

pub fn archive_dir_for(root: &str, cli_dir: Option<&str>, config_dir: Option<&str>, home: Option<&str>) -> (r: Result<String, String>)
    ensures
        res_view(r) == archive_dir_spec(root@, opt_str(cli_dir), opt_str(config_dir), opt_str(home)),
{
    match cli_dir {
        Some(d) => Ok(owned(d)),
        None => match config_dir {
            Some(d) => expand_tilde(d, home),
            None => Ok(join_path(root, DEFAULT_ARCHIVE_DIRNAME)),
        },
    }
}


/// How a one-shot command ended, as far as its exit code tells.
#[derive(Clone, Copy, PartialEq, Eq, Debug, Structural)]
pub enum Ending {
    /// It did what was asked, or printed the usage.
    Done,
    /// Its arguments were wrong, or the subcommand is unknown.
    BadArguments,
    /// It could not be done: a missing entry, a refused or cancelled `rm`, an error.
    Failed,
    /// The editor or shell it started finished with this code (none when a signal ended it).
    Program { code: Option<i32> },
    /// A sweep ran, and this many entries could not be handled.
    Swept { errors: usize },
}

/// The exit code of an ending: 0 when done, 2 for bad arguments, 1 for a failure, the started
/// program's own code (0 when it has none), and for a sweep 1 exactly when some entry could not
/// be handled.
pub open spec fn ending_code(e: Ending) -> int {
    match e {
        Ending::Done => 0,
        Ending::BadArguments => 2,
        Ending::Failed => 1,
        Ending::Program { code } => match code {
            Some(c) => c as int,
            None => 0,
        },
        Ending::Swept { errors } => if errors == 0 {
            0
        } else {
            1
        },
    }
}

pub fn exit_code_of(e: Ending) -> (r: i32)
    ensures
        r == ending_code(e),
{
    match e {
        Ending::Done => 0,
        Ending::BadArguments => 2,
        Ending::Failed => 1,
        Ending::Program { code } => match code {
            Some(c) => c,
            None => 0,
        },
        Ending::Swept { errors } => if errors == 0 {
            0
        } else {
            1
        },
    }
}


/// An argument of `rm` that asks to skip the confirmation: `-f`, `--force`, or `-r` and `-f`
/// combined in one word.
pub open spec fn asks_force(a: Seq<char>) -> bool {
    a == "-f"@ || a == "--force"@ || a == "-rf"@ || a == "-fr"@ || a == "-Rf"@ || a == "-fR"@
}

/// An argument of `rm` that asks to remove a directory: `-r`, `-R`, `--recursive`, or a
/// combined `-rf` form.
pub open spec fn asks_recursive(a: Seq<char>) -> bool {
    a == "-r"@ || a == "-R"@ || a == "--recursive"@ || a == "-rf"@ || a == "-fr"@ || a == "-Rf"@ || a == "-fR"@
}

proof fn lemma_rm_bits(x: Seq<char>)
    ensures
        flag_bits("rm"@, x) == (if asks_force(x) || asks_recursive(x) {
            Some((asks_force(x), asks_recursive(x)))
        } else {
            None
        }),
{
    reveal_strlit("rm");
    assert("rm"@ =~= seq!['r', 'm']);
    reveal_strlit("ls");
    assert("ls"@ =~= seq!['l', 's']);
    reveal_strlit("find");
    assert("find"@ =~= seq!['f', 'i', 'n', 'd']);
    reveal_strlit("new");
    assert("new"@ =~= seq!['n', 'e', 'w']);
    reveal_strlit("-l");
    assert("-l"@ =~= seq!['-', 'l']);
    reveal_strlit("--long");
    assert("--long"@ =~= seq!['-', '-', 'l', 'o', 'n', 'g']);
    reveal_strlit("--no-edit");
    assert("--no-edit"@ =~= seq!['-', '-', 'n', 'o', '-', 'e', 'd', 'i', 't']);
    reveal_strlit("-f");
    assert("-f"@ =~= seq!['-', 'f']);
    reveal_strlit("--force");
    assert("--force"@ =~= seq!['-', '-', 'f', 'o', 'r', 'c', 'e']);
    reveal_strlit("-r");
    assert("-r"@ =~= seq!['-', 'r']);
    reveal_strlit("-R");
    assert("-R"@ =~= seq!['-', 'R']);
    reveal_strlit("--recursive");
    assert("--recursive"@ =~= seq!['-', '-', 'r', 'e', 'c', 'u', 'r', 's', 'i', 'v', 'e']);
    reveal_strlit("-rf");
    assert("-rf"@ =~= seq!['-', 'r', 'f']);
    reveal_strlit("-fr");
    assert("-fr"@ =~= seq!['-', 'f', 'r']);
    reveal_strlit("-Rf");
    assert("-Rf"@ =~= seq!['-', 'R', 'f']);
    reveal_strlit("-fR");
    assert("-fR"@ =~= seq!['-', 'f', 'R']);
}

proof fn lemma_rm_scan(lang: Lang, args: Seq<Seq<char>>)
    ensures
        scan(lang, "rm"@, args) matches Ok(s) ==> (s.first <==> exists|i: int| 0 <= i < args.len() && asks_force(#[trigger] args[i]))
            && (s.second <==> exists|i: int| 0 <= i < args.len() && asks_recursive(#[trigger] args[i])),
    decreases args.len(),
{
    if args.len() > 0 {
        let rest = args.drop_last();
        lemma_rm_scan(lang, rest);
        let x = args.last();
        lemma_rm_bits(x);
        if scan(lang, "rm"@, args) is Ok {
            let s0 = scan(lang, "rm"@, rest)->Ok_0;
            assert forall|i: int| 0 <= i < rest.len() implies rest[i] == #[trigger] args[i] by {}
            if exists|i: int| 0 <= i < rest.len() && asks_force(#[trigger] rest[i]) {
                let i = choose|i: int| 0 <= i < rest.len() && asks_force(#[trigger] rest[i]);
                assert(args[i] == rest[i]);
            }
            if exists|i: int| 0 <= i < rest.len() && asks_recursive(#[trigger] rest[i]) {
                let i = choose|i: int| 0 <= i < rest.len() && asks_recursive(#[trigger] rest[i]);
                assert(args[i] == rest[i]);
            }
            if exists|i: int| 0 <= i < args.len() && asks_force(#[trigger] args[i]) {
                let i = choose|i: int| 0 <= i < args.len() && asks_force(#[trigger] args[i]);
                if i < rest.len() {
                    assert(rest[i] == args[i]);
                }
            }
            if exists|i: int| 0 <= i < args.len() && asks_recursive(#[trigger] args[i]) {
                let i = choose|i: int| 0 <= i < args.len() && asks_recursive(#[trigger] args[i]);
                if i < rest.len() {
                    assert(rest[i] == args[i]);
                }
            }
            assert(args[args.len() - 1] == x);
        }
    } else {
        assert(scan(lang, "rm"@, args) == Ok::<ScanV, Seq<char>>(ScanV { first: false, second: false, words: Seq::<Seq<char>>::empty() }));
    }
}

/// `rm` skips its confirmation only when asked to, and removes a directory only when asked to:
/// in the command it plans, `force` is set exactly when an argument is `-f`, `--force` or a
/// combined `-rf`/`-fr`/`-Rf`/`-fR`, and `recursive` exactly when one is `-r`, `-R`,
/// `--recursive` or a combined form.
pub proof fn law_rm_flags_set_what_they_name(lang: Lang, args: Seq<Seq<char>>)
    ensures
        plan_spec(lang, "rm"@, args) matches PlanV::Run(CommandV::Rm { force, recursive, .. }) ==> (force <==> exists|i: int|
            0 <= i < args.len() && asks_force(#[trigger] args[i])) && (recursive <==> exists|i: int|
            0 <= i < args.len() && asks_recursive(#[trigger] args[i])),
{
    lemma_rm_scan(lang, args);
    reveal_strlit("rm");
    assert("rm"@ =~= seq!['r', 'm']);
    reveal_strlit("gc");
    assert("gc"@ =~= seq!['g', 'c']);
    reveal_strlit("ls");
    assert("ls"@ =~= seq!['l', 's']);
    reveal_strlit("tree");
    assert("tree"@ =~= seq!['t', 'r', 'e', 'e']);
    reveal_strlit("new");
    assert("new"@ =~= seq!['n', 'e', 'w']);
    reveal_strlit("mkdir");
    assert("mkdir"@ =~= seq!['m', 'k', 'd', 'i', 'r']);
    reveal_strlit("edit");
    assert("edit"@ =~= seq!['e', 'd', 'i', 't']);
    reveal_strlit("shell");
    assert("shell"@ =~= seq!['s', 'h', 'e', 'l', 'l']);
    reveal_strlit("mv");
    assert("mv"@ =~= seq!['m', 'v']);
    reveal_strlit("path");
    assert("path"@ =~= seq!['p', 'a', 't', 'h']);
    reveal_strlit("find");
    assert("find"@ =~= seq!['f', 'i', 'n', 'd']);
    reveal_strlit("gc");
    reveal_strlit("tree");
    reveal_strlit("mkdir");
    reveal_strlit("edit");
    reveal_strlit("shell");
    reveal_strlit("mv");
    reveal_strlit("path");
}

} // verus!
