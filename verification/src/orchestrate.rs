//! The orchestrator's decision core: what a run does with each resolved
//! command or component, without performing any of it. Callers walk the
//! run state machines, spawn the commands these hand out, and feed the
//! outcomes back; in dry-run mode the machines only ever hand out log
//! lines, one per unit.

use vstd::prelude::*;
use crate::component::{spec_name, Component};
use crate::tasks::{CommandModel, CommandSpec};
use crate::text;

verus! {

/// How present a component is on the machine, as classified by detection.
#[derive(Clone, Debug, PartialEq)]
pub enum InstallState {
    NotInstalled,
    Partial { reasons: Vec<String> },
    Installed { version: Option<String>, details: Vec<String> },
    PresentButUnknown { reasons: Vec<String> },
}

/// Mathematical image of an [`InstallState`].
pub enum StateModel {
    NotInstalled,
    Partial(Seq<Seq<char>>),
    Installed(Option<Seq<char>>, Seq<Seq<char>>),
    PresentButUnknown(Seq<Seq<char>>),
}

impl View for InstallState {
    type V = StateModel;

    open spec fn view(&self) -> StateModel {
        match self {
            InstallState::NotInstalled => StateModel::NotInstalled,
            InstallState::Partial { reasons } => StateModel::Partial(reasons.deep_view()),
            InstallState::Installed { version, details } => StateModel::Installed(
                version.deep_view(),
                details.deep_view(),
            ),
            InstallState::PresentButUnknown { reasons } => StateModel::PresentButUnknown(
                reasons.deep_view(),
            ),
        }
    }
}

/// Whether installs run or are only logged.
#[derive(Clone, Copy, Debug, PartialEq, Eq, Structural)]
pub enum InstallMode {
    Apply,
    DryRun,
}

/// Whether a component's install step runs: it is skipped only when
/// skipping is asked for and detection classified the component as
/// `Installed`; every other state still installs.
pub fn should_install(skip_installed: bool, state: &InstallState) -> (r: bool)
    ensures
        r == !(skip_installed && state is Installed),
{
    if skip_installed {
        match state {
            InstallState::Installed { .. } => false,
            _ => true,
        }
    } else {
        true
    }
}

/// What the orchestrator does after one command's outcome.
#[derive(Clone, Copy, Debug, PartialEq, Eq, Structural)]
pub enum Verdict {
    /// The command succeeded; the run continues.
    Continue,
    /// The command failed but carried `allow_fail`; the run logs a
    /// warning and continues.
    Warned,
    /// The command failed without `allow_fail`; the run aborts.
    Aborted,
}

/// The failure policy for one executed command.
pub fn command_verdict(allow_fail: bool, success: bool) -> (r: Verdict)
    ensures
        success ==> r == Verdict::Continue,
        !success && allow_fail ==> r == Verdict::Warned,
        !success && !allow_fail ==> r == Verdict::Aborted,
{
    if success {
        Verdict::Continue
    } else if allow_fail {
        Verdict::Warned
    } else {
        Verdict::Aborted
    }
}

/// The dry-run log line for a command: what would have run.
pub open spec fn spec_dry_run_line(argv: Seq<Seq<char>>) -> Seq<char> {
    "[dry-run] "@ + text::spec_format_command(argv)
}

/// The progress line announcing command `i` of `n`.
pub open spec fn spec_progress_line(i: nat, n: nat, c: CommandModel) -> Seq<char> {
    "["@ + text::spec_u64_dec(i) + "/"@ + text::spec_u64_dec(n) + "] "@ + c.origin + " :: "@
        + text::spec_format_command(c.argv)
}

/// The prefixed form of one line of a streamed child's output, keeping
/// interleaved installer output readable: `     <stream> | <line>`.
pub open spec fn spec_stream_line(stream: Seq<char>, line: Seq<char>) -> Seq<char> {
    "     "@ + stream + " | "@ + line
}

/// Prefix one line of a streamed child's output with its stream name.
pub fn stream_line(stream: &str, line: &str) -> (r: String)
    ensures
        r@ == spec_stream_line(stream@, line@),
{
    let mut out = String::new();
    out.append("     ");
    out.append(stream);
    out.append(" | ");
    out.append(line);
    proof {
        assert(out@ =~= spec_stream_line(stream@, line@));
    }
    out
}

/// Render the dry-run line for an argv vector.
pub fn dry_run_line(argv: &Vec<String>) -> (r: String)
    ensures
        r@ == spec_dry_run_line(argv.deep_view()),
{
    let mut out = String::new();
    out.append("[dry-run] ");
    let rendered = text::format_command(argv);
    out.append(rendered.as_str());
    out
}

/// Render the progress line for command `i` (counted from one) of `n`.
pub fn progress_line(i: u64, n: u64, c: &CommandSpec) -> (r: String)
    ensures
        r@ == spec_progress_line(i as nat, n as nat, c@),
{
    let mut out = String::new();
    out.append("[");
    let num = text::u64_dec(i);
    out.append(num.as_str());
    out.append("/");
    let den = text::u64_dec(n);
    out.append(den.as_str());
    out.append("] ");
    out.append(c.origin.as_str());
    out.append(" :: ");
    let rendered = text::format_command(&c.argv);
    out.append(rendered.as_str());
    proof {
        assert(out@ =~= spec_progress_line(i as nat, n as nat, c@));
    }
    out
}

/// The dry-run transcript of a command list: exactly one log line per
/// command, in order, each naming what would have run. No command is
/// handed out for execution.
pub fn dry_run_lines(commands: &Vec<CommandSpec>) -> (r: Vec<String>)
    ensures
        r@.len() == commands@.len(),
        forall|i: int|
            0 <= i < commands@.len() ==> #[trigger] r@[i]@ == spec_dry_run_line(
                commands@[i]@.argv,
            ),
{
    let mut out: Vec<String> = Vec::new();
    let mut i: usize = 0;
    while i < commands.len()
        invariant
            i <= commands@.len(),
            out@.len() == i,
            forall|j: int|
                0 <= j < i ==> #[trigger] out@[j]@ == spec_dry_run_line(commands@[j]@.argv),
        decreases commands@.len() - i,
    {
        let line = dry_run_line(&commands[i].argv);
        out.push(line);
        i = i + 1;
    }
    out
}

/// The dry-run transcript of a resolved component order: exactly one log
/// line per component.
pub fn setup_dry_run_lines(ordered: &Vec<Component>) -> (r: Vec<String>)
    ensures
        r@.len() == ordered@.len(),
        forall|i: int|
            0 <= i < ordered@.len() ==> #[trigger] r@[i]@ == "[dry-run] "@ + spec_name(
                ordered@[i],
            ),
{
    let mut out: Vec<String> = Vec::new();
    let mut i: usize = 0;
    while i < ordered.len()
        invariant
            i <= ordered@.len(),
            out@.len() == i,
            forall|j: int| 0 <= j < i ==> #[trigger] out@[j]@ == "[dry-run] "@ + spec_name(ordered@[j]),
        decreases ordered@.len() - i,
    {
        let mut line = String::new();
        line.append("[dry-run] ");
        line.append(ordered[i].name());
        out.push(line);
        i = i + 1;
    }
    out
}

/// What the runner hands out for one command.
pub enum StepPlan {
    /// Dry-run: nothing is spawned; the line says what would have run.
    Skip { line: String },
    /// Execute this argv, then report the outcome back.
    Execute { argv: Vec<String>, allow_fail: bool },
}

/// The sequential runner for one flattened task: commands strictly in
/// order, a verdict after each, aborting on the first failed command
/// whose `allow_fail` is unset. In dry-run mode it never hands out a
/// command to execute.
pub struct CommandRun {
    commands: Vec<CommandSpec>,
    next: usize,
    dry_run: bool,
}

impl CommandRun {
    /// The commands of the run.
    pub closed spec fn spec_commands(&self) -> Seq<CommandModel> {
        self.commands.deep_view()
    }

    /// How many commands are already dealt with.
    pub closed spec fn spec_pos(&self) -> int {
        self.next as int
    }

    /// Whether the run is a simulation.
    pub closed spec fn spec_dry(&self) -> bool {
        self.dry_run
    }

    pub fn new(commands: Vec<CommandSpec>, dry_run: bool) -> (r: CommandRun)
        ensures
            r.spec_commands() == commands.deep_view(),
            r.spec_pos() == 0,
            r.spec_dry() == dry_run,
    {
        CommandRun { commands, next: 0, dry_run }
    }

    pub fn is_dry_run(&self) -> (r: bool)
        ensures
            r == self.spec_dry(),
    {
        self.dry_run
    }

    /// How many commands the run holds.
    pub fn total(&self) -> (r: usize)
        ensures
            r == self.spec_commands().len(),
    {
        self.commands.len()
    }

    /// Whether every command is dealt with.
    pub fn finished(&self) -> (r: bool)
        ensures
            r == (self.spec_pos() == self.spec_commands().len()),
    {
        self.next == self.commands.len()
    }

    /// The task that directly holds the current command.
    pub fn current_origin(&self) -> (r: &str)
        requires
            self.spec_pos() < self.spec_commands().len(),
        ensures
            r@ == self.spec_commands()[self.spec_pos()].origin,
    {
        proof {
            assert(self.commands@[self.next as int]@ == self.spec_commands()[self.spec_pos()]);
        }
        self.commands[self.next].origin.as_str()
    }

    /// The progress line announcing the current command.
    pub fn announce(&self) -> (r: String)
        requires
            self.spec_pos() < self.spec_commands().len(),
            self.spec_commands().len() <= u64::MAX,
        ensures
            r@ == spec_progress_line(
                (self.spec_pos() + 1) as nat,
                self.spec_commands().len() as nat,
                self.spec_commands()[self.spec_pos()],
            ),
    {
        let total = self.commands.len();
        proof {
            assert(self.next < total);
        }
        let c = &self.commands[self.next];
        progress_line((self.next + 1) as u64, total as u64, c)
    }

    /// What to do with the current command. In dry-run mode this is
    /// always a log line, never an execution: a dry run spawns nothing.
    pub fn next_plan(&self) -> (r: StepPlan)
        requires
            self.spec_pos() < self.spec_commands().len(),
        ensures
            self.spec_dry() ==> (r matches StepPlan::Skip { line } && line@ == spec_dry_run_line(
                self.spec_commands()[self.spec_pos()].argv,
            )),
            !self.spec_dry() ==> (r matches StepPlan::Execute { argv, allow_fail }
                && argv.deep_view() == self.spec_commands()[self.spec_pos()].argv && allow_fail
                == self.spec_commands()[self.spec_pos()].allow_fail),
    {
        let c = &self.commands[self.next];
        if self.dry_run {
            StepPlan::Skip { line: dry_run_line(&c.argv) }
        } else {
            StepPlan::Execute {
                argv: text::clone_string_vec(&c.argv),
                allow_fail: c.allow_fail,
            }
        }
    }

    /// Record the current command's outcome and move on. A dry run
    /// simulates success; otherwise the failure policy decides.
    pub fn advance(&mut self, success: bool) -> (v: Verdict)
        requires
            old(self).spec_pos() < old(self).spec_commands().len(),
        ensures
            final(self).spec_commands() == old(self).spec_commands(),
            final(self).spec_dry() == old(self).spec_dry(),
            final(self).spec_pos() == old(self).spec_pos() + 1,
            old(self).spec_dry() ==> v == Verdict::Continue,
            !old(self).spec_dry() ==> (v == if success {
                Verdict::Continue
            } else if old(self).spec_commands()[old(self).spec_pos()].allow_fail {
                Verdict::Warned
            } else {
                Verdict::Aborted
            }),
    {
        let v = if self.dry_run {
            Verdict::Continue
        } else {
            proof {
                assert(self.commands@[self.next as int]@ == self.spec_commands()[
                    self.spec_pos()
                ]);
            }
            command_verdict(self.commands[self.next].allow_fail, success)
        };
        let total = self.commands.len();
        proof {
            assert(self.next < total);
        }
        self.next = self.next + 1;
        v
    }
}

/// The sequential setup runner: resolved components strictly in order.
/// With `skip_installed` the caller detects first and the runner skips
/// exactly the components classified `Installed`; any install failure
/// aborts the rest (components have no `allow_fail`).
pub struct SetupRun {
    ordered: Vec<Component>,
    next: usize,
    skip_installed: bool,
    dry_run: bool,
}

impl SetupRun {
    pub closed spec fn spec_ordered(&self) -> Seq<Component> {
        self.ordered@
    }

    pub closed spec fn spec_pos(&self) -> int {
        self.next as int
    }

    pub closed spec fn spec_skip_installed(&self) -> bool {
        self.skip_installed
    }

    pub closed spec fn spec_dry(&self) -> bool {
        self.dry_run
    }

    pub fn new(ordered: Vec<Component>, skip_installed: bool, dry_run: bool) -> (r: SetupRun)
        ensures
            r.spec_ordered() == ordered@,
            r.spec_pos() == 0,
            r.spec_skip_installed() == skip_installed,
            r.spec_dry() == dry_run,
    {
        SetupRun { ordered, next: 0, skip_installed, dry_run }
    }

    /// The component up next, or `None` when the run is done.
    pub fn current(&self) -> (r: Option<Component>)
        ensures
            self.spec_pos() < self.spec_ordered().len() ==> r == Some(
                self.spec_ordered()[self.spec_pos()],
            ),
            self.spec_pos() >= self.spec_ordered().len() ==> r is None,
    {
        if self.next < self.ordered.len() {
            Some(self.ordered[self.next])
        } else {
            None
        }
    }

    /// Whether the caller must detect the current component's state
    /// before deciding.
    pub fn wants_detect(&self) -> (r: bool)
        ensures
            r == self.spec_skip_installed(),
    {
        self.skip_installed
    }

    /// Decide the current component: `true` orders its install, `false`
    /// skips it. The install is skipped exactly when skipping is on and
    /// the detected state is `Installed`.
    pub fn decide(&mut self, state: &Option<InstallState>) -> (install: bool)
        requires
            old(self).spec_pos() < old(self).spec_ordered().len(),
            old(self).spec_skip_installed() <==> state is Some,
        ensures
            final(self).spec_ordered() == old(self).spec_ordered(),
            final(self).spec_skip_installed() == old(self).spec_skip_installed(),
            final(self).spec_dry() == old(self).spec_dry(),
            final(self).spec_pos() == old(self).spec_pos() + 1,
            install == !(old(self).spec_skip_installed() && (state matches Some(st) && st
                is Installed)),
    {
        let total = self.ordered.len();
        proof {
            assert(self.next < total);
        }
        self.next = self.next + 1;
        match state {
            Some(st) => should_install(self.skip_installed, st),
            None => true,
        }
    }
}

} // verus!
