//! The command line: its options, the confirmation answer and the plain-text
//! summary of a plan. Reading the arguments and the terminal happens outside
//! the library.

use vstd::prelude::*;

use crate::model::{list_or_none, InstallPlan};
use crate::text::{cat, cat3, chars_of, dec, dec_string, lowercase, oview, owned, str_eq, to_lowercase, trim, trim_seq, views};

verus! {

/// What the command line asks for.
#[derive(Debug)]
pub struct Cli {
    /// `-n`, `--dry-run`: show what would be done without doing it.
    pub dry_run: bool,
    /// `-y`, `--yes`: ask no confirmation (`--noconfirm`).
    pub yes: bool,
    /// `-p`, `--profile <NAME>`: install straight from a saved profile.
    pub profile: Option<String>,
    /// `-l`, `--list-profiles`: list the saved profiles and exit.
    pub list_profiles: bool,
    /// `-h`, `--help`, or an unknown argument.
    pub help: bool,
    /// `-V`, `--version`.
    pub version: bool,
    /// The arguments that were not understood, in order.
    pub unknown: Vec<String>,
}

/// The options as plain values: dry run, yes, profile, list, help, version,
/// unknown arguments.
pub struct CliV {
    pub dry_run: bool,
    pub yes: bool,
    pub profile: Option<Seq<char>>,
    pub list_profiles: bool,
    pub help: bool,
    pub version: bool,
    pub unknown: Seq<Seq<char>>,
}

pub open spec fn cli_view(c: Cli) -> CliV {
    CliV {
        dry_run: c.dry_run,
        yes: c.yes,
        profile: oview(c.profile),
        list_profiles: c.list_profiles,
        help: c.help,
        version: c.version,
        unknown: views(c.unknown@),
    }
}

/// The options from argument `i` on, each argument read in order;
/// `--profile` takes the next argument (none when it is the last).
pub open spec fn parse_from(args: Seq<Seq<char>>, i: int, c: CliV) -> CliV
    decreases args.len() - i,
{
    if i < 0 || i >= args.len() {
        c
    } else {
        let a = args[i];
        if a == "--dry-run"@ || a == "-n"@ {
            parse_from(args, i + 1, CliV { dry_run: true, ..c })
        } else if a == "--yes"@ || a == "-y"@ {
            parse_from(args, i + 1, CliV { yes: true, ..c })
        } else if a == "--list-profiles"@ || a == "-l"@ {
            parse_from(args, i + 1, CliV { list_profiles: true, ..c })
        } else if a == "--help"@ || a == "-h"@ {
            parse_from(args, i + 1, CliV { help: true, ..c })
        } else if a == "--version"@ || a == "-V"@ {
            parse_from(args, i + 1, CliV { version: true, ..c })
        } else if a == "--profile"@ || a == "-p"@ {
            if i + 1 < args.len() {
                parse_from(args, i + 2, CliV { profile: Some(args[i + 1]), ..c })
            } else {
                parse_from(args, i + 1, CliV { profile: None, ..c })
            }
        } else {
            parse_from(args, i + 1, CliV { help: true, unknown: c.unknown.push(a), ..c })
        }
    }
}

/// The options of a command line (without the program name).
pub open spec fn parse_spec(args: Seq<Seq<char>>) -> CliV {
    parse_from(
        args,
        0,
        CliV {
            dry_run: false,
            yes: false,
            profile: None,
            list_profiles: false,
            help: false,
            version: false,
            unknown: Seq::empty(),
        },
    )
}

/// Reads the command-line arguments (without the program name).
pub fn parse_args(args: &Vec<String>) -> (cli: Cli)
    ensures
        cli_view(cli) == parse_spec(views(args@)),
{
    let ghost av = views(args@);
    let mut cli = Cli {
        dry_run: false,
        yes: false,
        profile: None,
        list_profiles: false,
        help: false,
        version: false,
        unknown: Vec::new(),
    };
    let mut i: usize = 0;
    assert(cli_view(cli) == CliV {
        dry_run: false,
        yes: false,
        profile: None,
        list_profiles: false,
        help: false,
        version: false,
        unknown: Seq::empty(),
    }) by {
        assert(views(cli.unknown@) =~= Seq::<Seq<char>>::empty());
    }
    while i < args.len()
        invariant
            av == views(args@),
            parse_spec(av) == parse_from(av, i as int, cli_view(cli)),
        decreases args.len() - i,
    {
        let a = args[i].as_str();
        assert(av[i as int] == a@);
        if str_eq(a, "--dry-run") || str_eq(a, "-n") {
            cli.dry_run = true;
            i = i + 1;
        } else if str_eq(a, "--yes") || str_eq(a, "-y") {
            cli.yes = true;
            i = i + 1;
        } else if str_eq(a, "--list-profiles") || str_eq(a, "-l") {
            cli.list_profiles = true;
            i = i + 1;
        } else if str_eq(a, "--help") || str_eq(a, "-h") {
            cli.help = true;
            i = i + 1;
        } else if str_eq(a, "--version") || str_eq(a, "-V") {
            cli.version = true;
            i = i + 1;
        } else if str_eq(a, "--profile") || str_eq(a, "-p") {
            if i + 1 < args.len() {
                assert(av[i + 1] == args@[i + 1]@);
                cli.profile = Some(args[i + 1].clone());
                i = i + 2;
            } else {
                cli.profile = None;
                i = i + 1;
            }
        } else {
            let ghost before = views(cli.unknown@);
            cli.help = true;
            cli.unknown.push(owned(a));
            assert(views(cli.unknown@) =~= before.push(a@));
            i = i + 1;
        }
    }
    cli
}

/// The confirmation answers that mean yes: `s`, `si`, `sí`, `y`, `yes`,
/// ignoring surrounding spaces and case.
pub open spec fn yes_spec(answer: Seq<char>) -> bool {
    yes_word(lowercase(trim_seq(answer)))
}

/// The words that mean yes, in lower case.
pub open spec fn yes_word(t: Seq<char>) -> bool {
    t == "s"@ || t == "si"@ || t == "sí"@ || t == "y"@ || t == "yes"@
}

/// Whether the user's answer to a confirmation means yes.
pub fn is_yes(answer: &str) -> (b: bool)
    ensures
        b == yes_spec(answer@),
{
    let t = trim(answer);
    let l = to_lowercase(t.as_str());
    is_yes_word(l.as_str())
}

/// Whether a trimmed, lower-case answer is one of the words that mean yes.
pub fn is_yes_word(t: &str) -> (b: bool)
    ensures
        b == yes_word(t@),
{
    str_eq(t, "s") || str_eq(t, "si") || str_eq(t, "sí") || str_eq(t, "y") || str_eq(t, "yes")
}

/// The plain-text summary of a plan shown before installing.
pub open spec fn plan_lines_spec(plan: InstallPlan) -> Seq<Seq<char>> {
    seq![Seq::<char>::empty(), "── Plan de instalacion ──"@] + match oview(plan.desktop_env_id) {
        Some(de) => seq!["  Entorno        : "@ + de],
        None => Seq::empty(),
    } + match oview(plan.display_manager) {
        Some(dm) => seq!["  Display manager: "@ + dm],
        None => Seq::empty(),
    } + seq![
        "  Oficiales ("@ + dec(plan.official@.len()) + ") : "@ + list_or_none(views(plan.official@)),
        "  AUR ("@ + dec(plan.aur@.len()) + ")       : "@ + list_or_none(views(plan.aur@)),
        Seq::<char>::empty(),
    ]
}

/// The lines that show a plan before it is installed.
pub fn plan_lines(plan: &InstallPlan) -> (r: Vec<String>)
    ensures
        views(r@) == plan_lines_spec(*plan),
{
    let mut out: Vec<String> = Vec::new();
    out.push(String::new());
    out.push(owned("── Plan de instalacion ──"));
    let ghost a = views(out@);
    assert(a =~= seq![Seq::<char>::empty(), "── Plan de instalacion ──"@]);
    match &plan.desktop_env_id {
        Some(de) => out.push(cat("  Entorno        : ", de.as_str())),
        None => {},
    }
    let ghost b = views(out@);
    match &plan.display_manager {
        Some(dm) => out.push(cat("  Display manager: ", dm.as_str())),
        None => {},
    }
    let ghost c = views(out@);
    let n = dec_string(plan.official.len() as u64);
    let list = crate::model::format_list_or_none(plan.official.as_slice());
    let head = cat3("  Oficiales (", n.as_str(), ") : ");
    out.push(cat(head.as_str(), list.as_str()));
    let m = dec_string(plan.aur.len() as u64);
    let alist = crate::model::format_list_or_none(plan.aur.as_slice());
    let head2 = cat3("  AUR (", m.as_str(), ")       : ");
    out.push(cat(head2.as_str(), alist.as_str()));
    out.push(String::new());
    proof {
        assert(b =~= a + match oview(plan.desktop_env_id) {
            Some(de) => seq!["  Entorno        : "@ + de],
            None => Seq::<Seq<char>>::empty(),
        });
        assert(c =~= b + match oview(plan.display_manager) {
            Some(dm) => seq!["  Display manager: "@ + dm],
            None => Seq::<Seq<char>>::empty(),
        });
        assert(views(out@) =~= plan_lines_spec(*plan));
    }
    out
}

} // verus!
