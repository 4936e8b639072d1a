//! The declarative configuration model: task tables, per-language
//! pipelines and install commands, project defaults, and the parsing of
//! raw task definitions into the task graph's steps.

use vstd::prelude::*;
use crate::tasks::{unique_names, StepModel, Task, TaskIndex, TaskModel, TaskStep};

verus! {

/// The verbs that dispatch to a language pipeline.
#[derive(Clone, Copy, Debug, Eq, PartialEq, Structural)]
pub enum Verb {
    Fmt,
    Lint,
    TypeCheck,
    Test,
    Fix,
    Check,
    Ci,
}

/// The identifier of a verb.
pub open spec fn spec_verb_str(v: Verb) -> Seq<char> {
    match v {
        Verb::Fmt => "fmt"@,
        Verb::Lint => "lint"@,
        Verb::TypeCheck => "type"@,
        Verb::Test => "test"@,
        Verb::Fix => "fix"@,
        Verb::Check => "check"@,
        Verb::Ci => "ci"@,
    }
}

impl Verb {
    /// The verb's identifier as used in configuration and output.
    pub fn as_str(&self) -> (r: &'static str)
        ensures
            r@ == spec_verb_str(*self),
    {
        match self {
            Verb::Fmt => "fmt",
            Verb::Lint => "lint",
            Verb::TypeCheck => "type",
            Verb::Test => "test",
            Verb::Fix => "fix",
            Verb::Check => "check",
            Verb::Ci => "ci",
        }
    }
}

/// How writing a task into configuration treats an existing entry.
#[derive(Clone, Copy, Debug, Eq, PartialEq, Structural)]
pub enum TaskUpdateMode {
    Overwrite,
    Append,
}

/// One raw argv element of a task definition: a string, or something
/// else (carried as a rendered description for the error message).
#[derive(Clone, Debug)]
pub enum ArgValue {
    Text(String),
    Other(String),
}

/// One raw element of a task's command list: a reference to another
/// task, a literal argv, or an unsupported shape.
#[derive(Clone, Debug)]
pub enum CommandValue {
    Reference(String),
    Argv(Vec<ArgValue>),
    Other(String),
}

/// A task definition as configuration delivers it.
#[derive(Clone, Debug)]
pub struct TaskEntry {
    pub commands: Vec<CommandValue>,
    pub allow_fail: bool,
}

/// Why a task definition was rejected.
#[derive(Clone, Debug)]
pub enum ConfigError {
    /// A literal command holds a non-string argument.
    NonStringArgument { task: String, detail: String },
    /// A command list element is neither a string nor an array.
    UnsupportedValue { task: String, detail: String },
}

pub enum ArgModel {
    Text(Seq<char>),
    Other(Seq<char>),
}

pub enum CommandValueModel {
    Reference(Seq<char>),
    Argv(Seq<ArgModel>),
    Other(Seq<char>),
}

pub struct TaskEntryModel {
    pub commands: Seq<CommandValueModel>,
    pub allow_fail: bool,
}

pub enum ConfigErrorModel {
    NonStringArgument(Seq<char>, Seq<char>),
    UnsupportedValue(Seq<char>, Seq<char>),
}

impl View for ArgValue {
    type V = ArgModel;

    open spec fn view(&self) -> ArgModel {
        match self {
            ArgValue::Text(s) => ArgModel::Text(s@),
            ArgValue::Other(d) => ArgModel::Other(d@),
        }
    }
}

impl DeepView for ArgValue {
    type V = ArgModel;

    open spec fn deep_view(&self) -> ArgModel {
        self@
    }
}

impl View for CommandValue {
    type V = CommandValueModel;

    open spec fn view(&self) -> CommandValueModel {
        match self {
            CommandValue::Reference(s) => CommandValueModel::Reference(s@),
            CommandValue::Argv(items) => CommandValueModel::Argv(items.deep_view()),
            CommandValue::Other(d) => CommandValueModel::Other(d@),
        }
    }
}

impl DeepView for CommandValue {
    type V = CommandValueModel;

    open spec fn deep_view(&self) -> CommandValueModel {
        self@
    }
}

impl View for TaskEntry {
    type V = TaskEntryModel;

    open spec fn view(&self) -> TaskEntryModel {
        TaskEntryModel { commands: self.commands.deep_view(), allow_fail: self.allow_fail }
    }
}

impl DeepView for TaskEntry {
    type V = TaskEntryModel;

    open spec fn deep_view(&self) -> TaskEntryModel {
        self@
    }
}

impl View for ConfigError {
    type V = ConfigErrorModel;

    open spec fn view(&self) -> ConfigErrorModel {
        match self {
            ConfigError::NonStringArgument { task, detail } => ConfigErrorModel::NonStringArgument(
                task@,
                detail@,
            ),
            ConfigError::UnsupportedValue { task, detail } => ConfigErrorModel::UnsupportedValue(
                task@,
                detail@,
            ),
        }
    }
}

impl ConfigError {
    /// The error's text, as configuration loading reports it.
    pub fn message(&self) -> (r: String)
        ensures
            match self {
                ConfigError::NonStringArgument { task, detail } => r@ == "task `"@ + task@
                    + "` contains non-string command argument: "@ + detail@,
                ConfigError::UnsupportedValue { task, detail } => r@ == "task `"@ + task@
                    + "` contains unsupported command value: "@ + detail@,
            },
    {
        match self {
            ConfigError::NonStringArgument { task, detail } => {
                let mut out = String::new();
                out.append("task `");
                out.append(task.as_str());
                out.append("` contains non-string command argument: ");
                out.append(detail.as_str());
                proof {
                    assert(out@ =~= "task `"@ + task@ + "` contains non-string command argument: "@
                        + detail@);
                }
                out
            },
            ConfigError::UnsupportedValue { task, detail } => {
                let mut out = String::new();
                out.append("task `");
                out.append(task.as_str());
                out.append("` contains unsupported command value: ");
                out.append(detail.as_str());
                proof {
                    assert(out@ =~= "task `"@ + task@ + "` contains unsupported command value: "@
                        + detail@);
                }
                out
            },
        }
    }
}

/// The argv texts of a raw argument list, or the first non-string.
pub open spec fn spec_parse_argv(task: Seq<char>, items: Seq<ArgModel>) -> Result<
    Seq<Seq<char>>,
    ConfigErrorModel,
>
    decreases items.len(),
{
    if items.len() == 0 {
        Ok(Seq::empty())
    } else {
        match items[0] {
            ArgModel::Text(s) => match spec_parse_argv(task, items.drop_first()) {
                Ok(rest) => Ok(seq![s] + rest),
                Err(e) => Err(e),
            },
            ArgModel::Other(d) => Err(ConfigErrorModel::NonStringArgument(task, d)),
        }
    }
}

/// The steps of a raw command list, or the first rejected element.
pub open spec fn spec_parse_steps(task: Seq<char>, cmds: Seq<CommandValueModel>) -> Result<
    Seq<StepModel>,
    ConfigErrorModel,
>
    decreases cmds.len(),
{
    if cmds.len() == 0 {
        Ok(Seq::empty())
    } else {
        let head = match cmds[0] {
            CommandValueModel::Reference(s) => Ok(StepModel::TaskRef(s)),
            CommandValueModel::Argv(items) => match spec_parse_argv(task, items) {
                Ok(argv) => Ok(StepModel::Command(argv)),
                Err(e) => Err(e),
            },
            CommandValueModel::Other(d) => Err(ConfigErrorModel::UnsupportedValue(task, d)),
        };
        match head {
            Ok(step) => match spec_parse_steps(task, cmds.drop_first()) {
                Ok(rest) => Ok(seq![step] + rest),
                Err(e) => Err(e),
            },
            Err(e) => Err(e),
        }
    }
}

/// The task a raw definition describes.
pub open spec fn spec_parse_task(name: Seq<char>, entry: TaskEntryModel) -> Result<
    TaskModel,
    ConfigErrorModel,
> {
    match spec_parse_steps(name, entry.commands) {
        Ok(steps) => Ok(TaskModel { name: name, steps: steps, allow_fail: entry.allow_fail }),
        Err(e) => Err(e),
    }
}

/// Parse one raw task definition into a task of the graph.
///
/// Fails on the first command element that is neither a string (a task
/// reference) nor an array of strings (a literal argv).
#[verifier::loop_isolation(false)]
pub fn parse_task(name: &str, entry: &TaskEntry) -> (r: Result<Task, ConfigError>)
    ensures
        match r {
            Ok(t) => spec_parse_task(name@, entry@) == Ok::<TaskModel, ConfigErrorModel>(t@),
            Err(e) => spec_parse_task(name@, entry@) == Err::<TaskModel, ConfigErrorModel>(e@),
        },
{
    let ghost cmds = entry@.commands;
    let mut steps: Vec<TaskStep> = Vec::new();
    proof {
        assert(cmds.skip(0) =~= cmds);
        if spec_parse_steps(name@, cmds) is Ok {
            assert(Seq::<StepModel>::empty() + spec_parse_steps(name@, cmds)->Ok_0
                =~= spec_parse_steps(name@, cmds)->Ok_0);
        }
    }
    let mut i: usize = 0;
    while i < entry.commands.len()
        invariant
            i <= entry.commands.len(),
            cmds.len() == entry.commands.len(),
            spec_parse_steps(name@, cmds) == (match spec_parse_steps(name@, cmds.skip(i as int)) {
                Ok(rest) => Ok::<Seq<StepModel>, ConfigErrorModel>(steps.deep_view() + rest),
                Err(e) => Err::<Seq<StepModel>, ConfigErrorModel>(e),
            }),
        decreases entry.commands.len() - i,
    {
        proof {
            assert(cmds.skip(i as int)[0] == cmds[i as int]);
            assert(cmds.skip(i as int).drop_first() =~= cmds.skip(i + 1));
            assert(cmds[i as int] == entry.commands@[i as int]@);
        }
        let ghost steps0 = steps.deep_view();
        match &entry.commands[i] {
            CommandValue::Reference(s) => {
                steps.push(TaskStep::TaskRef(s.clone()));
                proof {
                    assert(steps.deep_view() =~= steps0.push(StepModel::TaskRef(s@)));
                    match spec_parse_steps(name@, cmds.skip(i + 1)) {
                        Ok(rest) => {
                            assert(steps0 + (seq![StepModel::TaskRef(s@)] + rest) =~= (steps0.push(
                                StepModel::TaskRef(s@),
                            )) + rest);
                        },
                        Err(_) => {},
                    }
                }
            },
            CommandValue::Argv(items) => {
                let ghost iv = items.deep_view();
                let mut argv: Vec<String> = Vec::new();
                proof {
                    assert(iv.skip(0) =~= iv);
                    if spec_parse_argv(name@, iv) is Ok {
                        assert(Seq::<Seq<char>>::empty() + spec_parse_argv(name@, iv)->Ok_0
                            =~= spec_parse_argv(name@, iv)->Ok_0);
                    }
                }
                let mut j: usize = 0;
                while j < items.len()
                    invariant
                        j <= items.len(),
                        iv.len() == items.len(),
                        iv == items.deep_view(),
                        spec_parse_argv(name@, iv) == (match spec_parse_argv(
                            name@,
                            iv.skip(j as int),
                        ) {
                            Ok(rest) => Ok::<Seq<Seq<char>>, ConfigErrorModel>(
                                argv.deep_view() + rest,
                            ),
                            Err(e) => Err::<Seq<Seq<char>>, ConfigErrorModel>(e),
                        }),
                    decreases items.len() - j,
                {
                    proof {
                        assert(iv.skip(j as int)[0] == iv[j as int]);
                        assert(iv.skip(j as int).drop_first() =~= iv.skip(j + 1));
                        assert(iv[j as int] == items@[j as int]@);
                    }
                    let ghost argv0 = argv.deep_view();
                    match &items[j] {
                        ArgValue::Text(s) => {
                            argv.push(s.clone());
                            proof {
                                assert(argv.deep_view() =~= argv0.push(s@));
                                match spec_parse_argv(name@, iv.skip(j + 1)) {
                                    Ok(rest) => {
                                        assert(argv0 + (seq![s@] + rest) =~= argv0.push(s@) + rest);
                                    },
                                    Err(_) => {},
                                }
                            }
                        },
                        ArgValue::Other(d) => {
                            return Err(ConfigError::NonStringArgument {
                                task: name.to_owned(),
                                detail: d.clone(),
                            });
                        },
                    }
                    j = j + 1;
                }
                proof {
                    assert(iv.skip(iv.len() as int) =~= Seq::<ArgModel>::empty());
                    assert(argv.deep_view() + Seq::<Seq<char>>::empty() =~= argv.deep_view());
                }
                let ghost av = argv.deep_view();
                steps.push(TaskStep::Command(argv));
                proof {
                    assert(steps.deep_view() =~= steps0.push(StepModel::Command(av)));
                    match spec_parse_steps(name@, cmds.skip(i + 1)) {
                        Ok(rest) => {
                            assert(steps0 + (seq![StepModel::Command(av)] + rest) =~= (steps0.push(
                                StepModel::Command(av),
                            )) + rest);
                        },
                        Err(_) => {},
                    }
                }
            },
            CommandValue::Other(d) => {
                return Err(ConfigError::UnsupportedValue {
                    task: name.to_owned(),
                    detail: d.clone(),
                });
            },
        }
        i = i + 1;
    }
    proof {
        assert(cmds.skip(cmds.len() as int) =~= Seq::<CommandValueModel>::empty());
        assert(steps.deep_view() + Seq::<StepModel>::empty() =~= steps.deep_view());
    }
    Ok(Task { name: name.to_owned(), steps, allow_fail: entry.allow_fail })
}

/// The per-verb task sequences configured for one language.
#[derive(Clone, Debug, Default)]
pub struct Pipelines {
    pub fmt: Option<Vec<String>>,
    pub lint: Option<Vec<String>>,
    pub type_check: Option<Vec<String>>,
    pub test: Option<Vec<String>>,
    pub fix: Option<Vec<String>>,
    pub check: Option<Vec<String>>,
    pub ci: Option<Vec<String>>,
}

/// The pipeline a verb selects.
pub open spec fn spec_pipeline_lookup(p: Pipelines, v: Verb) -> Option<Vec<String>> {
    match v {
        Verb::Fmt => p.fmt,
        Verb::Lint => p.lint,
        Verb::TypeCheck => p.type_check,
        Verb::Test => p.test,
        Verb::Fix => p.fix,
        Verb::Check => p.check,
        Verb::Ci => p.ci,
    }
}

/// Select the task sequence a verb runs for a language's pipelines.
pub fn pipeline_lookup<'a>(pipelines: &'a Pipelines, verb: Verb) -> (r: &'a Option<Vec<String>>)
    ensures
        *r == spec_pipeline_lookup(*pipelines, verb),
{
    match verb {
        Verb::Fmt => &pipelines.fmt,
        Verb::Lint => &pipelines.lint,
        Verb::TypeCheck => &pipelines.type_check,
        Verb::Test => &pipelines.test,
        Verb::Fix => &pipelines.fix,
        Verb::Check => &pipelines.check,
        Verb::Ci => &pipelines.ci,
    }
}

/// The names of the pipelines a language defines, in verb order.
#[verifier::rlimit(50)]
pub fn collect_pipeline_names(pipelines: &Pipelines) -> (r: Vec<String>)
    ensures
        r.deep_view() =~= (if pipelines.fmt is Some {
            seq!["fmt"@]
        } else {
            Seq::empty()
        }) + (if pipelines.lint is Some {
            seq!["lint"@]
        } else {
            Seq::empty()
        }) + (if pipelines.type_check is Some {
            seq!["type"@]
        } else {
            Seq::empty()
        }) + (if pipelines.test is Some {
            seq!["test"@]
        } else {
            Seq::empty()
        }) + (if pipelines.fix is Some {
            seq!["fix"@]
        } else {
            Seq::empty()
        }) + (if pipelines.check is Some {
            seq!["check"@]
        } else {
            Seq::empty()
        }) + (if pipelines.ci is Some {
            seq!["ci"@]
        } else {
            Seq::empty()
        }),
{
    let mut names: Vec<String> = Vec::new();
    if pipelines.fmt.is_some() {
        names.push("fmt".to_owned());
    }
    if pipelines.lint.is_some() {
        names.push("lint".to_owned());
    }
    if pipelines.type_check.is_some() {
        names.push("type".to_owned());
    }
    if pipelines.test.is_some() {
        names.push("test".to_owned());
    }
    if pipelines.fix.is_some() {
        names.push("fix".to_owned());
    }
    if pipelines.check.is_some() {
        names.push("check".to_owned());
    }
    if pipelines.ci.is_some() {
        names.push("ci".to_owned());
    }
    proof {
        assert forall|j: int| 0 <= j < names@.len() implies names.deep_view()[j] == names@[j]@ by {}
    }
    names
}

/// A project entry: an optional working directory and language.
#[derive(Clone, Debug)]
pub struct Project {
    pub chdir: Option<String>,
    pub language: Option<String>,
}

/// A language entry: provisioning commands and verb pipelines.
#[derive(Clone, Debug)]
pub struct Language {
    pub install: Option<Vec<Vec<String>>>,
    pub pipelines: Option<Pipelines>,
}

/// Git-related configuration.
#[derive(Clone, Debug)]
pub struct GitConfig {
    pub main_branch: Option<String>,
    pub release_branch: Option<String>,
    pub version_file: Option<String>,
    pub changelog: Option<String>,
}

/// Environment variable requirements.
#[derive(Clone, Debug)]
pub struct EnvConfig {
    pub required: Option<Vec<String>>,
    pub optional: Option<Vec<String>>,
}

/// The whole configuration document.
#[derive(Debug)]
pub struct DevConfig {
    pub default_language: Option<String>,
    pub default_project: Option<String>,
    pub projects: Option<Vec<(String, Project)>>,
    pub tasks: Option<Vec<(String, TaskEntry)>>,
    pub languages: Option<Vec<(String, Language)>>,
    pub git: Option<GitConfig>,
    pub env: Option<EnvConfig>,
}

/// The language a run uses: an explicit override first, then the command
/// line, then the project's language, then the configured default.
pub fn effective_language(
    override_lang: Option<String>,
    cli_language: &Option<String>,
    project_language: &Option<String>,
    default_language: &Option<String>,
) -> (r: Option<String>)
    ensures
        match r {
            Some(l) => {
                &&& (override_lang matches Some(o) ==> l@ == o@)
                &&& (override_lang is None ==> (cli_language matches Some(c) ==> l@ == c@))
                &&& (override_lang is None && cli_language is None ==> (project_language
                    matches Some(p) ==> l@ == p@))
                &&& (override_lang is None && cli_language is None && project_language is None ==> (
                default_language matches Some(d) ==> l@ == d@))
            },
            None => override_lang is None && cli_language is None && project_language is None
                && default_language is None,
        },
{
    match override_lang {
        Some(l) => Some(l),
        None => match cli_language {
            Some(l) => Some(l.clone()),
            None => match project_language {
                Some(l) => Some(l.clone()),
                None => match default_language {
                    Some(l) => Some(l.clone()),
                    None => None,
                },
            },
        },
    }
}

/// Position of the first entry carrying the key, or the length when
/// none does.
pub open spec fn spec_assoc_index(items: Seq<(String, Language)>, key: Seq<char>) -> int
    decreases items.len(),
{
    if items.len() == 0 {
        0
    } else if items[0].0@ == key {
        0
    } else {
        1 + spec_assoc_index(items.drop_first(), key)
    }
}

proof fn lemma_assoc_index_at(items: Seq<(String, Language)>, key: Seq<char>, i: int)
    requires
        0 <= i <= items.len(),
        forall|j: int| 0 <= j < i ==> #[trigger] items[j].0@ != key,
        i < items.len() ==> items[i].0@ == key,
    ensures
        spec_assoc_index(items, key) == i,
    decreases i,
{
    if items.len() > 0 && i > 0 {
        assert forall|j: int| 0 <= j < i - 1 implies #[trigger] items.drop_first()[j].0@
            != key by {
            assert(items.drop_first()[j] == items[j + 1]);
        }
        lemma_assoc_index_at(items.drop_first(), key, i - 1);
    }
}

/// Look a language up by name: the first entry carrying the key, the
/// entry itself.
pub fn assoc_language<'a>(items: &'a Vec<(String, Language)>, key: &str) -> (r: Option<
    &'a Language,
>)
    ensures
        match r {
            Some(l) => spec_assoc_index(items@, key@) < items@.len() && *l == items@[
                spec_assoc_index(items@, key@)
            ].1 && items@[spec_assoc_index(items@, key@)].0@ == key@,
            None => spec_assoc_index(items@, key@) == items@.len(),
        },
{
    let mut i: usize = 0;
    while i < items.len()
        invariant
            i <= items@.len(),
            forall|j: int| 0 <= j < i ==> #[trigger] items@[j].0@ != key@,
        decreases items@.len() - i,
    {
        if crate::text::str_eq(items[i].0.as_str(), key) {
            proof {
                lemma_assoc_index_at(items@, key@, i as int);
            }
            return Some(&items[i].1);
        }
        i = i + 1;
    }
    proof {
        lemma_assoc_index_at(items@, key@, items@.len() as int);
    }
    None
}

/// The unique task names of a raw task table.
pub open spec fn unique_keys(entries: Seq<(String, TaskEntry)>) -> bool {
    forall|i: int, j: int| 0 <= i < j < entries.len() ==> entries[i].0@ != entries[j].0@
}

/// The task models a raw table parses to, or its first rejected entry.
pub open spec fn spec_parse_tasks(entries: Seq<(String, TaskEntry)>) -> Result<
    Seq<TaskModel>,
    ConfigErrorModel,
>
    decreases entries.len(),
{
    if entries.len() == 0 {
        Ok(Seq::empty())
    } else {
        match spec_parse_task(entries[0].0@, entries[0].1@) {
            Ok(t) => match spec_parse_tasks(entries.drop_first()) {
                Ok(rest) => Ok(seq![t] + rest),
                Err(e) => Err(e),
            },
            Err(e) => Err(e),
        }
    }
}

/// Build the task graph from configuration: each raw definition parsed
/// and indexed under its name. A missing task table gives an empty
/// graph; the first rejected definition is the error.
#[verifier::loop_isolation(false)]
pub fn build_index(config: &DevConfig) -> (r: Result<TaskIndex, ConfigError>)
    requires
        config.tasks matches Some(entries) ==> unique_keys(entries@),
    ensures
        match config.tasks {
            Some(entries) => match r {
                Ok(ti) => spec_parse_tasks(entries@) == Ok::<Seq<TaskModel>, ConfigErrorModel>(ti@)
                    && unique_names(ti@),
                Err(e) => spec_parse_tasks(entries@) == Err::<Seq<TaskModel>, ConfigErrorModel>(
                    e@,
                ),
            },
            None => r matches Ok(ti) && ti@ =~= Seq::<TaskModel>::empty(),
        },
{
    let mut index = TaskIndex::new();
    let entries = match &config.tasks {
        Some(entries) => entries,
        None => {
            return Ok(index);
        },
    };
    let ghost ev = entries@;
    proof {
        assert(ev.skip(0) =~= ev);
        if spec_parse_tasks(ev) is Ok {
            assert(Seq::<TaskModel>::empty() + spec_parse_tasks(ev)->Ok_0 =~= spec_parse_tasks(
                ev,
            )->Ok_0);
        }
    }
    let mut i: usize = 0;
    while i < entries.len()
        invariant
            i <= ev.len(),
            ev == entries@,
            unique_names(index@),
            index@.len() == i,
            forall|j: int| 0 <= j < i ==> #[trigger] index@[j].name == ev[j].0@,
            spec_parse_tasks(ev) == (match spec_parse_tasks(ev.skip(i as int)) {
                Ok(rest) => Ok::<Seq<TaskModel>, ConfigErrorModel>(index@ + rest),
                Err(e) => Err::<Seq<TaskModel>, ConfigErrorModel>(e),
            }),
        decreases ev.len() - i,
    {
        proof {
            assert(ev.skip(i as int)[0] == ev[i as int]);
            assert(ev.skip(i as int).drop_first() =~= ev.skip(i + 1));
        }
        let task = match parse_task(entries[i].0.as_str(), &entries[i].1) {
            Ok(t) => t,
            Err(e) => {
                return Err(e);
            },
        };
        let ghost tm = task@;
        let ghost index0 = index@;
        let name = entries[i].0.clone();
        proof {
            assert forall|j: int| 0 <= j < index0.len() implies index0[j].name != name@ by {
                assert(index0[j].name == ev[j].0@);
            }
            assert(!(exists|j: int|
                0 <= j < index0.len() && #[trigger] index0[j].name == name@));
        }
        index.insert(name, task);
        proof {
            assert(index@ =~= index0.push(TaskIndex::stored_model(ev[i as int].0@, tm)));
            assert(TaskIndex::stored_model(ev[i as int].0@, tm) == tm) by {
                assert(tm.name == ev[i as int].0@);
            }
            match spec_parse_tasks(ev.skip(i + 1)) {
                Ok(rest) => {
                    assert(index0 + (seq![tm] + rest) =~= index0.push(tm) + rest);
                },
                Err(_) => {},
            }
        }
        i = i + 1;
    }
    proof {
        assert(ev.skip(ev.len() as int) =~= Seq::<(String, TaskEntry)>::empty());
        assert(index@ + Seq::<TaskModel>::empty() =~= index@);
    }
    Ok(index)
}

} // verus!
