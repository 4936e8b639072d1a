use devflow::cli::{external_argv, parse_config_add_command, CliError};
use devflow::gitplan::{
    branch_create_steps, branch_finalize_steps, default_base_branch, git_add, git_commit, git_tag,
    release_pr_steps,
};
use devflow::menu::{build_root_menu, MenuAction, MenuItem, MenuState};
use devflow::review::parse_hunks;
use devflow::text::{join, str_lt, u64_dec};
use devflow::dockergen::{render_compose, render_dockerfile_core, render_env};
use devflow::walk::{get_ignore_patterns, should_ignore, WalkOptions};

fn argv(parts: &[&str]) -> Vec<String> {
    parts.iter().map(|p| p.to_string()).collect()
}

#[test]
fn menu_navigation_stays_in_bounds() {
    let root = build_root_menu(
        vec![("API_KEY".to_string(), "secret".to_string())],
        vec!["ci".to_string()],
    );
    // env submenu, tasks submenu, four quick commands.
    assert_eq!(root.len(), 6);

    let mut state = MenuState::new(root);
    assert_eq!(state.current_title(), "devkey");
    assert!(!state.has_back());
    state.move_up();
    assert_eq!(state.selected, 0);
    state.move_down();
    assert_eq!(state.selected, 1);

    // Enter the tasks submenu: a virtual back entry is shown first.
    match state.select() {
        MenuAction::Navigated => {}
        other => panic!("entering a submenu only navigates, got {:?}", other),
    }
    assert_eq!(state.current_title(), "devkey > tasks");
    assert!(state.has_back());
    assert_eq!(state.current_level().len(), 1);
    assert_eq!(state.current_level()[0].display_name(), "ci");
    assert_eq!(MenuItem::Back.display_name(), "< back");

    // Selecting the command below the back entry asks the caller to run it.
    state.move_down();
    match state.select() {
        MenuAction::RunTask { task } => assert_eq!(task, "ci"),
        other => panic!("expected a task action, got {:?}", other),
    }

    assert!(state.go_back());
    assert_eq!(state.current_title(), "devkey");
    assert!(!state.go_back());
}

#[test]
fn menu_empty_selection_is_a_no_op() {
    let mut state = MenuState::new(Vec::new());
    assert!(matches!(state.select(), MenuAction::Navigated));
    assert!(state.current_level().is_empty());
}

#[test]
fn menu_back_entry_leaves_the_submenu() {
    let root = build_root_menu(Vec::new(), vec!["ci".to_string()]);
    let mut state = MenuState::new(root);
    state.select();
    assert_eq!(state.current_title(), "devkey > tasks");
    // The cursor starts on the virtual back entry; selecting it leaves.
    match state.select() {
        MenuAction::Navigated => {}
        other => panic!("going back only navigates, got {:?}", other),
    }
    assert_eq!(state.current_title(), "devkey");
}

#[test]
fn menu_env_values_are_handed_out() {
    let root = build_root_menu(
        vec![("TOKEN".to_string(), "t-1".to_string())],
        Vec::new(),
    );
    let mut state = MenuState::new(root);
    state.select();
    state.move_down();
    match state.select() {
        MenuAction::UseValue { value } => assert_eq!(value, "t-1"),
        other => panic!("expected a value action, got {:?}", other),
    }
}

#[test]
fn branch_steps_follow_the_flow() {
    let create = branch_create_steps("feature-x", "release-candidate");
    assert_eq!(create.len(), 5);
    assert_eq!(create[0], argv(&["git", "fetch", "--all", "--prune"]));
    assert_eq!(
        create[3],
        argv(&["git", "checkout", "-B", "feature-x", "release-candidate"])
    );
    assert_eq!(
        create[4],
        argv(&["git", "push", "--set-upstream", "origin", "feature-x"])
    );

    let finalize = branch_finalize_steps("feature-x", "release-candidate", true);
    assert_eq!(finalize.len(), 7);
    assert_eq!(finalize[3], argv(&["git", "merge", "--no-ff", "feature-x"]));
    assert_eq!(finalize[5], argv(&["git", "branch", "-d", "feature-x"]));
    let keep = branch_finalize_steps("feature-x", "release-candidate", false);
    assert_eq!(keep.len(), 5);

    let pr = release_pr_steps("main", "release-candidate", true);
    assert_eq!(pr.len(), 5);
    assert_eq!(pr[4].last().map(|s| s.as_str()), Some("--no-open"));

    assert_eq!(git_commit("chore: release 1.2.3"), argv(&["commit", "-m", "chore: release 1.2.3"]));
    assert_eq!(git_tag("v1.2.3"), argv(&["tag", "v1.2.3"]));
    assert_eq!(
        git_add(&argv(&["Cargo.toml", "CHANGELOG.md"])),
        argv(&["add", "Cargo.toml", "CHANGELOG.md"])
    );
    assert_eq!(default_base_branch(), "release-candidate");
}

#[test]
fn walker_ignores_hidden_and_patterned_names() {
    let patterns = get_ignore_patterns();
    assert!(should_ignore(".hidden", true, &patterns));
    assert!(!should_ignore(".hidden", false, &patterns));
    assert!(should_ignore("node_modules", false, &patterns));
    assert!(should_ignore("my-target", false, &patterns));
    assert!(!should_ignore("src", false, &patterns));
    let opts = WalkOptions::default();
    assert_eq!(opts.max_depth, 10);
    assert!(opts.ignore_hidden);
}

#[test]
fn external_words_become_a_project_invocation() {
    let rebuilt = external_argv(
        &None,
        &None,
        &Some("python".to_string()),
        true,
        false,
        2,
        &argv(&["web", "test"]),
    );
    assert_eq!(
        rebuilt,
        argv(&[
            "dev",
            "--language",
            "python",
            "--dry-run",
            "--verbose",
            "--verbose",
            "--project",
            "web",
            "test",
        ])
    );
}

#[test]
fn config_add_commands_parse_both_forms() {
    let (argv_direct, render) =
        parse_config_add_command(&argv(&["--", "cargo", "test"])).unwrap();
    assert_eq!(argv_direct, argv(&["cargo", "test"]));
    assert_eq!(render, "cargo test");

    let (argv_shell, render_shell) =
        parse_config_add_command(&argv(&["cargo", "test"])).unwrap();
    assert_eq!(argv_shell, argv(&["bash", "-lc", "cargo test"]));
    assert_eq!(render_shell, "bash -lc \"cargo test\"");

    assert!(matches!(
        parse_config_add_command(&Vec::new()),
        Err(CliError::EmptyCommand)
    ));
}

#[test]
fn text_helpers_behave() {
    assert_eq!(u64_dec(0), "0");
    assert_eq!(u64_dec(907), "907");
    assert_eq!(u64_dec(u64::MAX), "18446744073709551615");
    assert_eq!(join(&argv(&["a", "b", "c"]), " > "), "a > b > c");
    assert_eq!(join(&Vec::new(), ","), "");
    assert!(str_lt("abc", "abd"));
    assert!(str_lt("ab", "abc"));
    assert!(!str_lt("abc", "abc"));
    assert!(!str_lt("b", "abc"));
}

#[test]
fn docker_templates_substitute_placeholders() {
    let dockerfile = render_dockerfile_core("FROM {{base_image}}\nRUN true\n", "ubuntu:24.04");
    assert_eq!(dockerfile, "FROM ubuntu:24.04\nRUN true\n");
    let compose = render_compose(
        "services:\n  {{service}}:\n    container_name: {{service}}\n",
        "web",
    );
    assert_eq!(compose, "services:\n  web:\n    container_name: web\n");
    assert_eq!(render_env(), "UID=1000\nGID=1000\n");
    assert_eq!(devflow::text::replace_all("aaa", "aa", "b"), "ba");
    assert_eq!(devflow::text::replace_all("abc", "", "x"), "abc");
}

#[test]
fn diff_hunks_parse_headers_and_content() {
    let diff = "diff --git a/f b/f\nindex 000..111 100644\n--- a/f\n+++ b/f\n@@ -1,3 +2,4 @@\n context\n+added\n-removed\n@@ -10 +20 @@ fn name()\n more\n";
    let hunks = parse_hunks(diff);
    assert_eq!(hunks.len(), 2);
    assert_eq!(hunks[0].header, "@@ -1,3 +2,4 @@");
    assert_eq!(hunks[0].new_start, 2);
    assert_eq!(
        hunks[0].content,
        vec![" context".to_string(), "+added".to_string(), "-removed".to_string()]
    );
    assert_eq!(hunks[1].header, "@@ -10 +20 @@ fn name()");
    assert_eq!(hunks[1].new_start, 20);
    assert_eq!(hunks[1].content, vec![" more".to_string()]);
}

#[test]
fn unreadable_hunk_starts_keep_the_previous_one() {
    let diff = "@@ -1 +7 @@\nx\n@@ broken header @@\ny\n";
    let hunks = parse_hunks(diff);
    assert_eq!(hunks.len(), 2);
    assert_eq!(hunks[0].new_start, 7);
    assert_eq!(hunks[1].new_start, 7);
    assert!(parse_hunks("no hunks at all\n").is_empty());
}
