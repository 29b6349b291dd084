//! Command-line options.

use vstd::prelude::*;
use vstd::string::*;

use crate::text::{str_equal, string_texts};
use crate::whitelist::opt_text;

verus! {

/// The options of a command line.
#[derive(Debug)]
pub struct CliArgs {
    /// `Some(true)` for a preview, `Some(false)` to execute, `None` to follow
    /// the configuration.
    pub dry_run: Option<bool>,
    pub force: bool,
    pub purge: bool,
    pub json: bool,
    pub config_path: Option<String>,
    pub cli_keeps: Vec<String>,
    pub init_config: bool,
    pub show_help: bool,
    pub show_version: bool,
}

/// The contents of the options.
pub struct CliView {
    pub dry_run: Option<bool>,
    pub force: bool,
    pub purge: bool,
    pub json: bool,
    pub config_path: Option<Seq<char>>,
    pub cli_keeps: Seq<Seq<char>>,
    pub init_config: bool,
    pub show_help: bool,
    pub show_version: bool,
}

impl View for CliArgs {
    type V = CliView;

    open spec fn view(&self) -> CliView {
        CliView {
            dry_run: self.dry_run,
            force: self.force,
            purge: self.purge,
            json: self.json,
            config_path: opt_text(self.config_path),
            cli_keeps: string_texts(self.cli_keeps@),
            init_config: self.init_config,
            show_help: self.show_help,
            show_version: self.show_version,
        }
    }
}

/// Why a command line was refused.
#[derive(Debug)]
pub enum CliError {
    /// `-c` / `--config` came last, without a value.
    MissingConfigValue,
    /// `-k` / `--keep` came last, without a value.
    MissingKeepValue,
    /// An argument that is no option.
    UnknownArgument(String),
}

/// The meaning of a refusal.
pub enum CliErrorView {
    MissingConfigValue,
    MissingKeepValue,
    UnknownArgument(Seq<char>),
}

impl View for CliError {
    type V = CliErrorView;

    open spec fn view(&self) -> CliErrorView {
        match self {
            CliError::MissingConfigValue => CliErrorView::MissingConfigValue,
            CliError::MissingKeepValue => CliErrorView::MissingKeepValue,
            CliError::UnknownArgument(a) => CliErrorView::UnknownArgument(a@),
        }
    }
}

/// The message of a refusal.
pub open spec fn cli_error_text(e: CliErrorView) -> Seq<char> {
    match e {
        CliErrorView::MissingConfigValue => "缺少 --config 参数值"@,
        CliErrorView::MissingKeepValue => "缺少 --keep 参数值"@,
        CliErrorView::UnknownArgument(a) => "未知参数: "@ + a,
    }
}

impl CliError {
    /// The message shown to the user.
    pub fn message(&self) -> (r: String)
        ensures
            r@ == cli_error_text(self@),
    {
        match self {
            CliError::MissingConfigValue => String::from_str("缺少 --config 参数值"),
            CliError::MissingKeepValue => String::from_str("缺少 --keep 参数值"),
            CliError::UnknownArgument(a) => {
                let mut out = String::from_str("未知参数: ");
                out.append(a.as_str());
                out
            },
        }
    }
}

/// Whether a run only previews: an explicit `-n` or `-e` (or `-f`) wins,
/// otherwise the configuration's default applies.
pub open spec fn dry_run_choice(option: Option<bool>, config_default: bool) -> bool {
    match option {
        Some(b) => b,
        None => config_default,
    }
}

impl CliArgs {
    /// Whether this run only previews, given the configuration's default.
    pub fn is_dry_run(&self, config_default: bool) -> (r: bool)
        ensures
            r == dry_run_choice(self.dry_run, config_default),
    {
        match self.dry_run {
            Some(b) => b,
            None => config_default,
        }
    }
}

/// No option given.
pub open spec fn no_options() -> CliView {
    CliView {
        dry_run: None,
        force: false,
        purge: false,
        json: false,
        config_path: None,
        cli_keeps: Seq::empty(),
        init_config: false,
        show_help: false,
        show_version: false,
    }
}

/// The options that the arguments set, read from left to right on top of
/// `cli`. A later option overrides an earlier one; `-k` values accumulate.
pub open spec fn options_from(args: Seq<Seq<char>>, cli: CliView) -> Result<CliView, CliErrorView>
    decreases args.len(),
{
    if args.len() == 0 {
        Ok(cli)
    } else {
        let a = args[0];
        let rest = args.drop_first();
        if a == "-n"@ || a == "--dry-run"@ {
            options_from(rest, CliView { dry_run: Some(true), ..cli })
        } else if a == "-e"@ || a == "--execute"@ {
            options_from(rest, CliView { dry_run: Some(false), ..cli })
        } else if a == "-f"@ || a == "--force"@ {
            options_from(rest, CliView { force: true, dry_run: Some(false), ..cli })
        } else if a == "-p"@ || a == "--purge"@ {
            options_from(rest, CliView { purge: true, ..cli })
        } else if a == "--json"@ {
            options_from(rest, CliView { json: true, ..cli })
        } else if a == "--init-config"@ {
            options_from(rest, CliView { init_config: true, ..cli })
        } else if a == "-c"@ || a == "--config"@ {
            if rest.len() == 0 {
                Err(CliErrorView::MissingConfigValue)
            } else {
                options_from(rest.drop_first(), CliView { config_path: Some(rest[0]), ..cli })
            }
        } else if a == "-k"@ || a == "--keep"@ {
            if rest.len() == 0 {
                Err(CliErrorView::MissingKeepValue)
            } else {
                options_from(rest.drop_first(), CliView { cli_keeps: cli.cli_keeps.push(rest[0]), ..cli })
            }
        } else if a == "-h"@ || a == "--help"@ {
            options_from(rest, CliView { show_help: true, ..cli })
        } else if a == "-v"@ || a == "--version"@ {
            options_from(rest, CliView { show_version: true, ..cli })
        } else {
            Err(CliErrorView::UnknownArgument(a))
        }
    }
}

proof fn lemma_front(a: Seq<char>, rest: Seq<Seq<char>>)
    ensures
        (seq![a] + rest).len() >= 1,
        (seq![a] + rest)[0] == a,
        (seq![a] + rest).drop_first() == rest,
{
    assert((seq![a] + rest).drop_first() =~= rest);
}

proof fn lemma_front2(a: Seq<char>, b: Seq<char>, rest: Seq<Seq<char>>)
    ensures
        (seq![a, b] + rest)[0] == a,
        (seq![a, b] + rest).drop_first() == seq![b] + rest,
{
    assert((seq![a, b] + rest).drop_first() =~= seq![b] + rest);
}

/// Each short option reads exactly as its long form wherever an option
/// stands (`-n`/`--dry-run`, `-e`/`--execute`, `-f`/`--force`, `-p`/`--purge`,
/// `-c`/`--config`, `-k`/`--keep`, `-h`/`--help`, `-v`/`--version`), and each
/// option has its documented effect on the options read so far, the
/// remaining arguments being read on top.
#[verifier::rlimit(40)]
pub proof fn lemma_options_have_their_effect(rest: Seq<Seq<char>>, cli: CliView, value: Seq<char>)
    ensures
        options_from(seq!["-n"@] + rest, cli) == options_from(seq!["--dry-run"@] + rest, cli),
        options_from(seq!["-e"@] + rest, cli) == options_from(seq!["--execute"@] + rest, cli),
        options_from(seq!["-f"@] + rest, cli) == options_from(seq!["--force"@] + rest, cli),
        options_from(seq!["-p"@] + rest, cli) == options_from(seq!["--purge"@] + rest, cli),
        options_from(seq!["-c"@] + rest, cli) == options_from(seq!["--config"@] + rest, cli),
        options_from(seq!["-k"@] + rest, cli) == options_from(seq!["--keep"@] + rest, cli),
        options_from(seq!["-h"@] + rest, cli) == options_from(seq!["--help"@] + rest, cli),
        options_from(seq!["-v"@] + rest, cli) == options_from(seq!["--version"@] + rest, cli),
        options_from(seq!["--dry-run"@] + rest, cli) == options_from(
            rest,
            CliView { dry_run: Some(true), ..cli },
        ),
        options_from(seq!["--execute"@] + rest, cli) == options_from(
            rest,
            CliView { dry_run: Some(false), ..cli },
        ),
        options_from(seq!["--force"@] + rest, cli) == options_from(
            rest,
            CliView { force: true, dry_run: Some(false), ..cli },
        ),
        options_from(seq!["--purge"@] + rest, cli) == options_from(rest, CliView { purge: true, ..cli }),
        options_from(seq!["--json"@] + rest, cli) == options_from(rest, CliView { json: true, ..cli }),
        options_from(seq!["--init-config"@] + rest, cli) == options_from(
            rest,
            CliView { init_config: true, ..cli },
        ),
        options_from(seq!["--help"@] + rest, cli) == options_from(
            rest,
            CliView { show_help: true, ..cli },
        ),
        options_from(seq!["--version"@] + rest, cli) == options_from(
            rest,
            CliView { show_version: true, ..cli },
        ),
        options_from(seq!["--config"@, value] + rest, cli) == options_from(
            rest,
            CliView { config_path: Some(value), ..cli },
        ),
        options_from(seq!["--keep"@, value] + rest, cli) == options_from(
            rest,
            CliView { cli_keeps: cli.cli_keeps.push(value), ..cli },
        ),
        options_from(seq!["--config"@], cli) == Err::<CliView, CliErrorView>(
            CliErrorView::MissingConfigValue,
        ),
        options_from(seq!["--keep"@], cli) == Err::<CliView, CliErrorView>(
            CliErrorView::MissingKeepValue,
        ),
{
    reveal_strlit("-n");
    reveal_strlit("--dry-run");
    reveal_strlit("-e");
    reveal_strlit("--execute");
    reveal_strlit("-f");
    reveal_strlit("--force");
    reveal_strlit("-p");
    reveal_strlit("--purge");
    reveal_strlit("--json");
    reveal_strlit("--init-config");
    reveal_strlit("-c");
    reveal_strlit("--config");
    reveal_strlit("-k");
    reveal_strlit("--keep");
    reveal_strlit("-h");
    reveal_strlit("--help");
    reveal_strlit("-v");
    reveal_strlit("--version");
    assert("-n"@[1] != "-e"@[1]);
    assert("-n"@[1] != "-f"@[1]);
    assert("-n"@[1] != "-p"@[1]);
    assert("-n"@[1] != "-c"@[1]);
    assert("-n"@[1] != "-k"@[1]);
    assert("-n"@[1] != "-h"@[1]);
    assert("-n"@[1] != "-v"@[1]);
    assert("--dry-run"@[2] != "--execute"@[2]);
    assert("--dry-run"@[2] != "--version"@[2]);
    assert("-e"@[1] != "-f"@[1]);
    assert("-e"@[1] != "-p"@[1]);
    assert("-e"@[1] != "-c"@[1]);
    assert("-e"@[1] != "-k"@[1]);
    assert("-e"@[1] != "-h"@[1]);
    assert("-e"@[1] != "-v"@[1]);
    assert("--execute"@[2] != "--version"@[2]);
    assert("-f"@[1] != "-p"@[1]);
    assert("-f"@[1] != "-c"@[1]);
    assert("-f"@[1] != "-k"@[1]);
    assert("-f"@[1] != "-h"@[1]);
    assert("-f"@[1] != "-v"@[1]);
    assert("--force"@[2] != "--purge"@[2]);
    assert("-p"@[1] != "-c"@[1]);
    assert("-p"@[1] != "-k"@[1]);
    assert("-p"@[1] != "-h"@[1]);
    assert("-p"@[1] != "-v"@[1]);
    assert("--json"@[2] != "--keep"@[2]);
    assert("--json"@[2] != "--help"@[2]);
    assert("-c"@[1] != "-k"@[1]);
    assert("-c"@[1] != "-h"@[1]);
    assert("-c"@[1] != "-v"@[1]);
    assert("-k"@[1] != "-h"@[1]);
    assert("-k"@[1] != "-v"@[1]);
    assert("--keep"@[2] != "--help"@[2]);
    assert("-h"@[1] != "-v"@[1]);
    lemma_front("-n"@, rest);
    lemma_front("--dry-run"@, rest);
    lemma_front("-e"@, rest);
    lemma_front("--execute"@, rest);
    lemma_front("-f"@, rest);
    lemma_front("--force"@, rest);
    lemma_front("-p"@, rest);
    lemma_front("--purge"@, rest);
    lemma_front("--json"@, rest);
    lemma_front("--init-config"@, rest);
    lemma_front("-c"@, rest);
    lemma_front("--config"@, rest);
    lemma_front("-k"@, rest);
    lemma_front("--keep"@, rest);
    lemma_front("-h"@, rest);
    lemma_front("--help"@, rest);
    lemma_front("-v"@, rest);
    lemma_front("--version"@, rest);
    lemma_front2("--config"@, value, rest);
    lemma_front2("-c"@, value, rest);
    lemma_front2("--keep"@, value, rest);
    lemma_front2("-k"@, value, rest);
    lemma_front(value, rest);
    let x = seq!["--config"@, value] + rest;
    assert(x[0] == "--config"@);
    assert(x[0] != "-n"@ && x[0] != "--dry-run"@);
    assert(x[0] != "-e"@ && x[0] != "--execute"@);
    assert(x[0] != "-f"@ && x[0] != "--force"@);
    assert(x[0] != "-p"@ && x[0] != "--purge"@);
    assert(x[0] != "--json"@);
    assert(x[0] != "--init-config"@);
    lemma_front("--config"@, Seq::empty());
    lemma_front("--keep"@, Seq::empty());
    assert(seq!["--config"@] + Seq::<Seq<char>>::empty() =~= seq!["--config"@]);
    assert(seq!["--keep"@] + Seq::<Seq<char>>::empty() =~= seq!["--keep"@]);
}

/// The view of a parse result.
pub open spec fn cli_result_view(r: Result<CliArgs, CliError>) -> Result<CliView, CliErrorView> {
    match r {
        Ok(c) => Ok(c@),
        Err(e) => Err(e@),
    }
}

fn is_either(a: &str, short: &str, long: &str) -> (r: bool)
    ensures
        r == (a@ == short@ || a@ == long@),
{
    str_equal(a, short) || str_equal(a, long)
}

/// Reads the arguments after the program name.
pub fn parse_cli_args(args: &[String]) -> (r: Result<CliArgs, CliError>)
    ensures
        cli_result_view(r) == options_from(string_texts(args@), no_options()),
{
    let ghost all = string_texts(args@);
    let mut cli = CliArgs {
        dry_run: None,
        force: false,
        purge: false,
        json: false,
        config_path: None,
        cli_keeps: Vec::new(),
        init_config: false,
        show_help: false,
        show_version: false,
    };
    assert(cli@ == no_options()) by {
        assert(string_texts(cli.cli_keeps@) =~= Seq::<Seq<char>>::empty());
    }
    assert(all.subrange(0, all.len() as int) == all);
    let mut i: usize = 0;
    while i < args.len()
        invariant
            i <= args@.len(),
            all == string_texts(args@),
            options_from(all.subrange(i as int, all.len() as int), cli@) == options_from(
                all,
                no_options(),
            ),
        decreases args.len() - i,
    {
        let a = args[i].as_str();
        let ghost rest = all.subrange(i + 1, all.len() as int);
        assert(all.subrange(i as int, all.len() as int)[0] == a@);
        assert(all.subrange(i as int, all.len() as int).drop_first() == rest);
        if is_either(a, "-n", "--dry-run") {
            cli.dry_run = Some(true);
        } else if is_either(a, "-e", "--execute") {
            cli.dry_run = Some(false);
        } else if is_either(a, "-f", "--force") {
            cli.force = true;
            cli.dry_run = Some(false);
        } else if is_either(a, "-p", "--purge") {
            cli.purge = true;
        } else if str_equal(a, "--json") {
            cli.json = true;
        } else if str_equal(a, "--init-config") {
            cli.init_config = true;
        } else if is_either(a, "-c", "--config") {
            if i + 1 < args.len() {
                assert(rest[0] == args@[i + 1]@);
                assert(rest.drop_first() == all.subrange(i + 2, all.len() as int));
                cli.config_path = Some(args[i + 1].clone());
                i = i + 1;
            } else {
                return Err(CliError::MissingConfigValue);
            }
        } else if is_either(a, "-k", "--keep") {
            if i + 1 < args.len() {
                assert(rest[0] == args@[i + 1]@);
                assert(rest.drop_first() == all.subrange(i + 2, all.len() as int));
                let ghost before = cli@;
                cli.cli_keeps.push(args[i + 1].clone());
                assert(string_texts(cli.cli_keeps@) =~= before.cli_keeps.push(args@[i + 1]@));
                i = i + 1;
            } else {
                return Err(CliError::MissingKeepValue);
            }
        } else if is_either(a, "-h", "--help") {
            cli.show_help = true;
        } else if is_either(a, "-v", "--version") {
            cli.show_version = true;
        } else {
            return Err(CliError::UnknownArgument(args[i].clone()));
        }
        i = i + 1;
    }
    assert(all.subrange(all.len() as int, all.len() as int) =~= Seq::<Seq<char>>::empty());
    Ok(cli)
}

} // verus!
