//! The program's own arguments: whether they name a subcommand, and the TUI's options.
use vstd::prelude::*;
use vstd::string::*;

use crate::i18n::{err_cd_file_needs_arg, err_cd_file_needs_arg_text, err_unknown_arg, err_unknown_arg_text, Lang};
use crate::text::{chars_of, has_prefix, owned, starts_with, str_eq, string_from_range};

verus! {

pub open spec fn args_view(v: Seq<String>) -> Seq<Seq<char>> {
    v.map_values(|a: String| a@)
}

/// Index of the first argument from `i` on that does not start with `-`; the value that
/// follows `--cd-file` is skipped with it.
pub open spec fn first_non_flag_from(argv: Seq<Seq<char>>, i: int) -> Option<int>
    decreases argv.len() + 2 - i,
{
    if i < 0 || i >= argv.len() {
        None
    } else if !starts_with(argv[i], "-"@) {
        Some(i)
    } else if argv[i] == "--cd-file"@ {
        first_non_flag_from(argv, i + 2)
    } else {
        first_non_flag_from(argv, i + 1)
    }
}

/// Index of the first argument that is not a flag: the subcommand, which the shell wrapper's
/// `--cd-file <tmp>` may precede.
pub fn first_non_flag_index(argv: &Vec<String>) -> (r: Option<usize>)
    ensures
        match r {
            Some(i) => first_non_flag_from(args_view(argv@), 0) == Some(i as int),
            None => first_non_flag_from(args_view(argv@), 0) is None,
        },
{
    let ghost av = args_view(argv@);
    let mut i: usize = 0;
    while i < argv.len()
        invariant
            i <= argv@.len(),
            av == args_view(argv@),
            first_non_flag_from(av, 0) == first_non_flag_from(av, i as int),
        decreases argv.len() - i,
    {
        let a = &argv[i];
        let v = chars_of(a.as_str());
        let dash = ['-'];
        proof {
            reveal_strlit("-");
            assert("-"@ =~= dash@);
        }
        if !has_prefix(&v, &dash) {
            return Some(i);
        }
        if str_eq(a.as_str(), "--cd-file") {
            if i + 1 < argv.len() {
                i = i + 2;
            } else {
                assert(first_non_flag_from(av, i + 2) is None);
                i = argv.len();
            }
        } else {
            i = i + 1;
        }
    }
    None
}

/// How the TUI was asked to start.
#[derive(Debug, PartialEq, Eq)]
pub enum Launch {
    /// `-h` / `--help`: print the usage and stop.
    Help,
    /// `-V` / `--version`: print the version and stop.
    Version,
    /// Start the TUI; on quitting, write the final directory to this file if one was given.
    Tui(Option<String>),
}

pub ghost enum LaunchV {
    Help,
    Version,
    Tui(Option<Seq<char>>),
}

impl View for Launch {
    type V = LaunchV;

    open spec fn view(&self) -> LaunchV {
        match self {
            Launch::Help => LaunchV::Help,
            Launch::Version => LaunchV::Version,
            Launch::Tui(Some(p)) => LaunchV::Tui(Some(p@)),
            Launch::Tui(None) => LaunchV::Tui(None),
        }
    }
}

/// The options from `i` on, with `cd` the `--cd-file` seen so far: the last `--cd-file` wins,
/// `-h` / `--help` and `-V` / `--version` stop at once, anything else is an error.
pub open spec fn launch_from(lang: Lang, argv: Seq<Seq<char>>, i: int, cd: Option<Seq<char>>) -> Result<LaunchV, Seq<char>>
    decreases argv.len() + 2 - i,
{
    if i < 0 || i >= argv.len() {
        Ok(LaunchV::Tui(cd))
    } else if argv[i] == "-h"@ || argv[i] == "--help"@ {
        Ok(LaunchV::Help)
    } else if argv[i] == "-V"@ || argv[i] == "--version"@ {
        Ok(LaunchV::Version)
    } else if argv[i] == "--cd-file"@ {
        if i + 1 < argv.len() {
            launch_from(lang, argv, i + 2, Some(argv[i + 1]))
        } else {
            Err(err_cd_file_needs_arg_text(lang))
        }
    } else if starts_with(argv[i], "--cd-file="@) {
        launch_from(lang, argv, i + 1, Some(argv[i].subrange(10, argv[i].len() as int)))
    } else {
        Err(err_unknown_arg_text(lang, argv[i]))
    }
}

pub open spec fn launch_view(r: Result<Launch, String>) -> Result<LaunchV, Seq<char>> {
    match r {
        Ok(l) => Ok(l@),
        Err(e) => Err(e@),
    }
}

/// Reads the TUI's options: `--cd-file <path>` or `--cd-file=<path>`, `-h` / `--help` and
/// `-V` / `--version`.
pub fn parse_args(argv: &Vec<String>, lang: Lang) -> (r: Result<Launch, String>)
    ensures
        launch_view(r) == launch_from(lang, args_view(argv@), 0, None),
{
    let ghost av = args_view(argv@);
    let mut cd: Option<String> = None;
    let mut i: usize = 0;
    let prefix = ['-', '-', 'c', 'd', '-', 'f', 'i', 'l', 'e', '='];
    proof {
        reveal_strlit("--cd-file=");
        assert("--cd-file="@ =~= prefix@);
    }
    while i < argv.len()
        invariant
            i <= argv@.len(),
            av == args_view(argv@),
            "--cd-file="@ == prefix@,
            launch_from(lang, av, 0, None) == launch_from(lang, av, i as int, match cd {
                Some(p) => Some(p@),
                None => None,
            }),
        decreases argv.len() - i,
    {
        let a = &argv[i];
        if str_eq(a.as_str(), "-h") || str_eq(a.as_str(), "--help") {
            return Ok(Launch::Help);
        }
        if str_eq(a.as_str(), "-V") || str_eq(a.as_str(), "--version") {
            return Ok(Launch::Version);
        }
        if str_eq(a.as_str(), "--cd-file") {
            if i + 1 < argv.len() {
                cd = Some(argv[i + 1].clone());
                i = i + 2;
            } else {
                return Err(owned(err_cd_file_needs_arg(lang)));
            }
        } else {
            let v = chars_of(a.as_str());
            if has_prefix(&v, &prefix) {
                cd = Some(string_from_range(&v, 10, v.len()));
                i = i + 1;
            } else {
                return Err(err_unknown_arg(lang, a.as_str()));
            }
        }
    }
    match cd {
        Some(p) => Ok(Launch::Tui(Some(p))),
        None => Ok(Launch::Tui(None)),
    }
}

/// The argument taken for the subcommand is never a flag.
pub proof fn law_subcommand_is_not_a_flag(argv: Seq<Seq<char>>, i: int)
    requires
        i >= 0,
    ensures
        first_non_flag_from(argv, i) matches Some(j) ==> i <= j < argv.len() && !starts_with(argv[j], "-"@),
    decreases argv.len() + 2 - i,
{
    if i < argv.len() && starts_with(argv[i], "-"@) {
        if argv[i] == "--cd-file"@ {
            law_subcommand_is_not_a_flag(argv, i + 2);
        } else {
            law_subcommand_is_not_a_flag(argv, i + 1);
        }
    }
}

} // verus!
