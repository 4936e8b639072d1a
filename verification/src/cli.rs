//! The command-line surface as plain data: global options, the verbs and
//! subcommands, and the pure reshaping of external subcommands back into
//! regular invocations. Argument parsing itself lives outside the
//! library; these types carry what it produced.

use vstd::prelude::*;
use crate::config::Verb;
use crate::versioning::BumpLevel;

verus! {

/// Global options and the selected command.
#[derive(Debug)]
pub struct Cli {
    pub chdir: Option<String>,
    pub file: Option<String>,
    pub project: Option<String>,
    pub language: Option<String>,
    pub dry_run: bool,
    pub verbose: u8,
    pub no_color: bool,
    pub command: Command,
}

/// The selected top-level command.
#[derive(Debug)]
pub enum Command {
    List,
    Run { task: String },
    Start(StartArgs),
    Fmt,
    Lint,
    TypeCheck,
    Test,
    Fix,
    Check,
    Ci,
    All { verb: Verb },
    Install(InstallArgs),
    Language { command: LanguageCommand },
    Git { command: GitCommand },
    Version { command: VersionCommand },
    Env(EnvArgs),
    Config { command: Option<ConfigCommand> },
    Setup { command: SetupCommand },
    External(Vec<String>),
}

#[derive(Debug)]
pub enum LanguageCommand {
    SetDefault { name: String },
}

#[derive(Debug)]
pub struct InstallArgs {
    pub language: Option<String>,
}

#[derive(Debug)]
pub struct StartArgs {
    pub port: Option<u16>,
    pub prod: bool,
}

#[derive(Debug)]
pub enum GitCommand {
    BranchCreate(BranchCreate),
    BranchFinalize(BranchFinalize),
    ReleasePr(ReleasePr),
}

#[derive(Debug)]
pub struct BranchCreate {
    pub name: String,
    pub base: Option<String>,
    pub push: bool,
    pub allow_dirty: bool,
}

#[derive(Debug)]
pub struct BranchFinalize {
    pub name: Option<String>,
    pub base: Option<String>,
    pub delete: bool,
    pub allow_dirty: bool,
}

#[derive(Debug)]
pub struct ReleasePr {
    pub from: Option<String>,
    pub to: Option<String>,
    pub no_open: bool,
}

#[derive(Debug)]
pub enum VersionCommand {
    Bump(VersionBump),
    Changelog(ChangelogArgs),
    Show,
}

#[derive(Debug)]
pub struct VersionBump {
    pub level: BumpLevel,
    pub custom: Option<String>,
    pub tag: bool,
    pub no_commit: bool,
    pub no_changelog: bool,
}

#[derive(Debug)]
pub struct ChangelogArgs {
    pub since: Option<String>,
    pub unreleased: bool,
}

#[derive(Debug)]
pub struct EnvArgs {
    pub raw: bool,
    pub command: Option<EnvCommand>,
}

#[derive(Debug)]
pub enum EnvCommand {
    List,
    Get { key: String },
    Add { key: String, value: String },
    Rm { key: String },
    Profiles,
    Switch { profile: String },
    Save { name: String },
    Check,
    Init,
    Template,
    Diff { reference: String },
    Sync { reference: String },
}

#[derive(Debug)]
pub enum ConfigCommand {
    Show,
    Path,
    Check,
    Generate { path: Option<String>, force: bool },
    Reload,
    Add { name: Option<String>, command: Vec<String>, force: bool, append: bool },
}

#[derive(Debug)]
pub enum SetupCommand {
    Run { components: Vec<String>, skip_installed: bool, no_deps: bool },
    All { skip_installed: bool, no_deps: bool },
    Status,
    List,
    Config,
}

/// Why a raw command line was rejected.
#[derive(Clone, Debug)]
pub enum CliError {
    /// No command text was given.
    EmptyCommand,
    /// Nothing followed the `--` separator.
    EmptyArgv,
}

/// The argv an unknown first word is re-parsed with: the global options
/// handed back in flag form, then the word as `--project`, then the
/// remaining words.
pub open spec fn spec_external_argv(
    chdir: Option<Seq<char>>,
    file: Option<Seq<char>>,
    language: Option<Seq<char>>,
    dry_run: bool,
    no_color: bool,
    verbose: nat,
    extra: Seq<Seq<char>>,
) -> Seq<Seq<char>> {
    seq!["dev"@] + (match chdir {
        Some(p) => seq!["--chdir"@, p],
        None => Seq::empty(),
    }) + (match file {
        Some(p) => seq!["--file"@, p],
        None => Seq::empty(),
    }) + (match language {
        Some(l) => seq!["--language"@, l],
        None => Seq::empty(),
    }) + (if dry_run {
        seq!["--dry-run"@]
    } else {
        Seq::empty()
    }) + (if no_color {
        seq!["--no-color"@]
    } else {
        Seq::empty()
    }) + Seq::new(verbose, |i: int| "--verbose"@) + seq!["--project"@, extra[0]] + extra.drop_first()
}

/// Rebuild a full argv from an external subcommand: the first extra word
/// becomes the project selection, every global option is kept.
#[verifier::loop_isolation(false)]
#[verifier::rlimit(100)]
pub fn external_argv(
    chdir: &Option<String>,
    file: &Option<String>,
    language: &Option<String>,
    dry_run: bool,
    no_color: bool,
    verbose: u8,
    extra: &Vec<String>,
) -> (r: Vec<String>)
    requires
        extra@.len() > 0,
    ensures
        r.deep_view() == spec_external_argv(
            chdir.deep_view(),
            file.deep_view(),
            language.deep_view(),
            dry_run,
            no_color,
            verbose as nat,
            extra.deep_view(),
        ),
{
    let mut argv: Vec<String> = Vec::new();
    argv.push("dev".to_owned());
    proof {
        assert(argv.deep_view() =~= seq!["dev"@]);
    }
    let ghost g0 = argv.deep_view();
    match chdir {
        Some(p) => {
            argv.push("--chdir".to_owned());
            argv.push(p.clone());
            proof {
                assert(argv.deep_view() =~= g0 + seq!["--chdir"@, p@]) by {
                    assert forall|j: int| 0 <= j < argv@.len() implies argv.deep_view()[j] == (g0
                        + seq!["--chdir"@, p@])[j] by {
                        assert(argv.deep_view()[j] == argv@[j]@);
                    }
                }
            }
        },
        None => {},
    }
    let ghost g1 = argv.deep_view();
    proof {
        assert(g1 =~= g0 + (match chdir.deep_view() {
            Some(p) => seq!["--chdir"@, p],
            None => Seq::<Seq<char>>::empty(),
        }));
    }
    match file {
        Some(p) => {
            argv.push("--file".to_owned());
            argv.push(p.clone());
            proof {
                assert(argv.deep_view() =~= g1 + seq!["--file"@, p@]) by {
                    assert forall|j: int| 0 <= j < argv@.len() implies argv.deep_view()[j] == (g1
                        + seq!["--file"@, p@])[j] by {
                        assert(argv.deep_view()[j] == argv@[j]@);
                    }
                }
            }
        },
        None => {},
    }
    let ghost g2 = argv.deep_view();
    proof {
        assert(g2 =~= g1 + (match file.deep_view() {
            Some(p) => seq!["--file"@, p],
            None => Seq::<Seq<char>>::empty(),
        }));
    }
    match language {
        Some(l) => {
            argv.push("--language".to_owned());
            argv.push(l.clone());
            proof {
                assert(argv.deep_view() =~= g2 + seq!["--language"@, l@]) by {
                    assert forall|j: int| 0 <= j < argv@.len() implies argv.deep_view()[j] == (g2
                        + seq!["--language"@, l@])[j] by {
                        assert(argv.deep_view()[j] == argv@[j]@);
                    }
                }
            }
        },
        None => {},
    }
    let ghost g3 = argv.deep_view();
    proof {
        assert(g3 =~= g2 + (match language.deep_view() {
            Some(l) => seq!["--language"@, l],
            None => Seq::<Seq<char>>::empty(),
        }));
    }
    if dry_run {
        argv.push("--dry-run".to_owned());
        proof {
            assert(argv.deep_view() =~= g3 + seq!["--dry-run"@]) by {
                assert forall|j: int| 0 <= j < argv@.len() implies argv.deep_view()[j] == (g3
                    + seq!["--dry-run"@])[j] by {
                    assert(argv.deep_view()[j] == argv@[j]@);
                }
            }
        }
    }
    let ghost g4 = argv.deep_view();
    proof {
        assert(g4 =~= g3 + (if dry_run {
            seq!["--dry-run"@]
        } else {
            Seq::<Seq<char>>::empty()
        }));
    }
    if no_color {
        argv.push("--no-color".to_owned());
        proof {
            assert(argv.deep_view() =~= g4 + seq!["--no-color"@]) by {
                assert forall|j: int| 0 <= j < argv@.len() implies argv.deep_view()[j] == (g4
                    + seq!["--no-color"@])[j] by {
                    assert(argv.deep_view()[j] == argv@[j]@);
                }
            }
        }
    }
    let ghost g5 = argv.deep_view();
    proof {
        assert(g5 =~= g4 + (if no_color {
            seq!["--no-color"@]
        } else {
            Seq::<Seq<char>>::empty()
        }));
    }
    let mut v: u8 = 0;
    while v < verbose
        invariant
            v <= verbose,
            argv.deep_view() =~= g5 + Seq::new(v as nat, |i: int| "--verbose"@),
        decreases verbose - v,
    {
        let ghost cur = argv.deep_view();
        argv.push("--verbose".to_owned());
        proof {
            assert(argv.deep_view() =~= cur.push("--verbose"@)) by {
                assert forall|j: int| 0 <= j < argv@.len() implies argv.deep_view()[j] == cur.push(
                    "--verbose"@,
                )[j] by {
                    assert(argv.deep_view()[j] == argv@[j]@);
                }
            }
            assert(argv.deep_view() =~= g5 + Seq::new((v + 1) as nat, |i: int| "--verbose"@));
        }
        v = v + 1;
    }
    let ghost g6 = argv.deep_view();
    let ghost cur1 = argv.deep_view();
    argv.push("--project".to_owned());
    proof {
        assert(argv.deep_view() =~= cur1.push("--project"@)) by {
            assert forall|j: int| 0 <= j < argv@.len() implies argv.deep_view()[j] == cur1.push(
                "--project"@,
            )[j] by {
                assert(argv.deep_view()[j] == argv@[j]@);
            }
        }
    }
    let ghost cur2 = argv.deep_view();
    argv.push(extra[0].clone());
    proof {
        assert(argv.deep_view() =~= cur2.push(extra.deep_view()[0])) by {
            assert forall|j: int| 0 <= j < argv@.len() implies argv.deep_view()[j] == cur2.push(
                extra.deep_view()[0],
            )[j] by {
                assert(argv.deep_view()[j] == argv@[j]@);
            }
        }
    }
    let ghost before_rest = argv.deep_view();
    proof {
        assert(before_rest =~= g6 + seq!["--project"@, extra.deep_view()[0]]);
    }
    let mut i: usize = 1;
    while i < extra.len()
        invariant
            1 <= i <= extra@.len(),
            argv.deep_view() =~= before_rest + extra.deep_view().subrange(1, i as int),
        decreases extra@.len() - i,
    {
        let ghost cur = argv.deep_view();
        argv.push(extra[i].clone());
        proof {
            assert(argv.deep_view() =~= cur.push(extra.deep_view()[i as int])) by {
                assert forall|j: int| 0 <= j < argv@.len() implies argv.deep_view()[j] == cur.push(
                    extra.deep_view()[i as int],
                )[j] by {
                    assert(argv.deep_view()[j] == argv@[j]@);
                }
            }
            assert(argv.deep_view() =~= before_rest + extra.deep_view().subrange(1, i + 1));
        }
        i = i + 1;
    }
    proof {
        assert(extra.deep_view().subrange(1, extra@.len() as int)
            =~= extra.deep_view().drop_first());
        assert(argv.deep_view() =~= spec_external_argv(
            chdir.deep_view(),
            file.deep_view(),
            language.deep_view(),
            dry_run,
            no_color,
            verbose as nat,
            extra.deep_view(),
        ));
    }
    argv
}

/// What a raw task text of the config-add flow becomes: after a leading
/// `--` the remaining words are the argv as given; otherwise the words
/// are joined and run through a login shell.
pub open spec fn spec_config_add_argv(command: Seq<Seq<char>>) -> Seq<Seq<char>> {
    if command.len() >= 2 && command[0] == "--"@ {
        command.drop_first()
    } else {
        seq!["bash"@, "-lc"@, crate::text::spec_join(command, seq![' '])]
    }
}

/// Parse the raw command words of the config-add flow into the stored
/// argv and its rendered display form. An empty word list is an error.
pub fn parse_config_add_command(command: &Vec<String>) -> (r: Result<(Vec<String>, String), CliError>)
    ensures
        match r {
            Ok(parts) => command@.len() > 0 && parts.0.deep_view() == spec_config_add_argv(
                command.deep_view(),
            ) && parts.1@ == crate::text::spec_format_command(
                spec_config_add_argv(command.deep_view()),
            ),
            Err(e) => e is EmptyCommand ==> command@.len() == 0,
        },
{
    if command.len() == 0 {
        return Err(CliError::EmptyCommand);
    }
    if command.len() >= 2 && crate::text::str_eq(command[0].as_str(), "--") {
        let mut argv: Vec<String> = Vec::new();
        let mut i: usize = 1;
        while i < command.len()
            invariant
                1 <= i <= command@.len(),
                argv.deep_view() =~= command.deep_view().subrange(1, i as int),
            decreases command@.len() - i,
        {
            let ghost cur = argv.deep_view();
            argv.push(command[i].clone());
            proof {
                assert(argv.deep_view() =~= cur.push(command.deep_view()[i as int])) by {
                    assert forall|j: int| 0 <= j < argv@.len() implies argv.deep_view()[j]
                        == cur.push(command.deep_view()[i as int])[j] by {
                        assert(argv.deep_view()[j] == argv@[j]@);
                    }
                }
                assert(argv.deep_view() =~= command.deep_view().subrange(1, i + 1));
            }
            i = i + 1;
        }
        proof {
            assert(command.deep_view().subrange(1, command@.len() as int) =~= command.deep_view().drop_first());
        }
        let render = crate::text::format_command(&argv);
        Ok((argv, render))
    } else {
        let joined = crate::text::join(command, " ");
        let mut argv: Vec<String> = Vec::new();
        argv.push("bash".to_owned());
        argv.push("-lc".to_owned());
        argv.push(joined);
        proof {
            reveal_strlit(" ");
            assert(" "@ =~= seq![' ']);
            assert(argv.deep_view() =~= spec_config_add_argv(command.deep_view()));
        }
        let render = crate::text::format_command(&argv);
        Ok((argv, render))
    }
}

} // verus!
