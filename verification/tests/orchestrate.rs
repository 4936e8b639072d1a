use devflow::component::Component;
use devflow::orchestrate::{
    command_verdict, dry_run_line, dry_run_lines, progress_line, setup_dry_run_lines,
    should_install, CommandRun, InstallState, SetupRun, StepPlan, Verdict,
};
use devflow::tasks::CommandSpec;
use devflow::text::format_command;

fn argv(parts: &[&str]) -> Vec<String> {
    parts.iter().map(|p| p.to_string()).collect()
}

fn spec(origin: &str, parts: &[&str], allow_fail: bool) -> CommandSpec {
    CommandSpec { origin: origin.to_string(), argv: argv(parts), allow_fail }
}

#[test]
fn skip_installed_skips_exactly_installed_states() {
    let installed = InstallState::Installed {
        version: Some("v22.1.0".to_string()),
        details: vec![],
    };
    let partial = InstallState::Partial { reasons: vec!["half".to_string()] };
    assert!(!should_install(true, &installed));
    assert!(should_install(true, &partial));
    assert!(should_install(true, &InstallState::NotInstalled));
    assert!(should_install(
        true,
        &InstallState::PresentButUnknown { reasons: vec![] }
    ));
    assert!(should_install(false, &installed));
}

#[test]
fn setup_run_skips_installed_node() {
    let ordered = vec![Component::Node];
    let mut run = SetupRun::new(ordered, true, false);
    assert_eq!(run.current(), Some(Component::Node));
    assert!(run.wants_detect());
    let detected = Some(InstallState::Installed {
        version: Some("v22.1.0".to_string()),
        details: vec![],
    });
    let install = run.decide(&detected);
    assert!(!install, "an installed component is skipped, never installed");
    assert_eq!(run.current(), None);
}

#[test]
fn setup_run_installs_without_skip_flag() {
    let ordered = vec![Component::Node];
    let mut run = SetupRun::new(ordered, false, false);
    assert!(!run.wants_detect());
    assert!(run.decide(&None));
}

#[test]
fn verdicts_follow_the_failure_policy() {
    assert_eq!(command_verdict(false, true), Verdict::Continue);
    assert_eq!(command_verdict(true, true), Verdict::Continue);
    assert_eq!(command_verdict(true, false), Verdict::Warned);
    assert_eq!(command_verdict(false, false), Verdict::Aborted);
}

#[test]
fn dry_run_never_executes_and_simulates_success() {
    let commands = vec![spec("test", &["npm", "test"], false)];
    let mut run = CommandRun::new(commands, true);
    assert!(run.is_dry_run());
    assert!(!run.finished());
    match run.next_plan() {
        StepPlan::Skip { line } => assert_eq!(line, "[dry-run] npm test"),
        StepPlan::Execute { .. } => panic!("a dry run must not execute"),
    }
    // Even for a command that would fail, the dry run continues.
    assert_eq!(run.advance(false), Verdict::Continue);
    assert!(run.finished());
}

#[test]
fn real_run_hands_out_the_command_and_aborts_on_failure() {
    let commands = vec![
        spec("lint", &["cargo", "clippy"], false),
        spec("test", &["cargo", "test"], false),
    ];
    let mut run = CommandRun::new(commands, false);
    assert_eq!(run.total(), 2);
    assert_eq!(run.announce(), "[1/2] lint :: cargo clippy");
    match run.next_plan() {
        StepPlan::Execute { argv: a, allow_fail } => {
            assert_eq!(a, argv(&["cargo", "clippy"]));
            assert!(!allow_fail);
        }
        StepPlan::Skip { .. } => panic!("a real run executes"),
    }
    assert_eq!(run.advance(true), Verdict::Continue);
    assert_eq!(run.announce(), "[2/2] test :: cargo test");
    assert_eq!(run.advance(false), Verdict::Aborted);
}

#[test]
fn warned_commands_let_the_run_continue() {
    let commands = vec![spec("fmt", &["cargo", "fmt"], true)];
    let mut run = CommandRun::new(commands, false);
    assert_eq!(run.advance(false), Verdict::Warned);
    assert!(run.finished());
}

#[test]
fn one_dry_run_line_per_command() {
    let commands = vec![
        spec("lint", &["cargo", "clippy"], false),
        spec("test", &["npm", "test"], false),
    ];
    let lines = dry_run_lines(&commands);
    assert_eq!(lines.len(), commands.len());
    assert_eq!(lines[0], "[dry-run] cargo clippy");
    assert_eq!(lines[1], "[dry-run] npm test");
}

#[test]
fn one_dry_run_line_per_component() {
    let ordered = vec![Component::Node, Component::Pnpm];
    let lines = setup_dry_run_lines(&ordered);
    assert_eq!(lines.len(), 2);
    assert_eq!(lines[0], "[dry-run] node");
    assert_eq!(lines[1], "[dry-run] pnpm");
}

#[test]
fn rendering_quotes_and_escapes() {
    assert_eq!(format_command(&argv(&["npm", "test"])), "npm test");
    assert_eq!(
        format_command(&argv(&["echo", "hello world"])),
        "echo \"hello world\""
    );
    assert_eq!(
        format_command(&argv(&["say", "a \"b\" c"])),
        "say \"a \\\"b\\\" c\""
    );
    assert_eq!(dry_run_line(&argv(&["npm", "test"])), "[dry-run] npm test");
    let one = spec("build", &["make", "all"], false);
    assert_eq!(progress_line(3, 7, &one), "[3/7] build :: make all");
}

#[test]
fn streamed_output_lines_carry_their_stream() {
    assert_eq!(
        devflow::orchestrate::stream_line("stdout", "unpacking"),
        "     stdout | unpacking"
    );
    assert_eq!(devflow::orchestrate::stream_line("stderr", ""), "     stderr | ");
}
