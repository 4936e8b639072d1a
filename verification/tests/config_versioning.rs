use devflow::config::{
    build_index, collect_pipeline_names, effective_language, parse_task, pipeline_lookup,
    ArgValue, CommandValue, ConfigError, DevConfig, Pipelines, TaskEntry, Verb,
};
use devflow::tasks::TaskStep;
use devflow::versioning::{
    bump_prerelease, increment_version, insert_changelog_section, parse_u64, parse_version,
    split_on, BumpLevel, Version,
};

fn entry(commands: Vec<CommandValue>, allow_fail: bool) -> TaskEntry {
    TaskEntry { commands, allow_fail }
}

#[test]
fn parse_task_accepts_references_and_argvs() {
    let e = entry(
        vec![
            CommandValue::Reference("lint".to_string()),
            CommandValue::Argv(vec![
                ArgValue::Text("cargo".to_string()),
                ArgValue::Text("test".to_string()),
            ]),
        ],
        true,
    );
    let t = parse_task("ci", &e).unwrap();
    assert_eq!(t.name, "ci");
    assert!(t.allow_fail);
    assert_eq!(t.steps.len(), 2);
    assert!(matches!(&t.steps[0], TaskStep::TaskRef(n) if n == "lint"));
    assert!(matches!(&t.steps[1], TaskStep::Command(a) if a == &vec!["cargo".to_string(), "test".to_string()]));
}

#[test]
fn parse_task_rejects_bad_shapes() {
    let non_string = entry(
        vec![CommandValue::Argv(vec![ArgValue::Other("7".to_string())])],
        false,
    );
    match parse_task("t", &non_string) {
        Err(ConfigError::NonStringArgument { task, detail }) => {
            assert_eq!(task, "t");
            assert_eq!(detail, "7");
        }
        other => panic!("expected a non-string error, got {:?}", other),
    }
    let unsupported = entry(vec![CommandValue::Other("3.5".to_string())], false);
    match parse_task("t", &unsupported) {
        Err(ConfigError::UnsupportedValue { task, .. }) => assert_eq!(task, "t"),
        other => panic!("expected an unsupported-value error, got {:?}", other),
    }
}

fn empty_config() -> DevConfig {
    DevConfig {
        default_language: None,
        default_project: None,
        projects: None,
        tasks: None,
        languages: None,
        git: None,
        env: None,
    }
}

#[test]
fn build_index_handles_missing_and_present_tables() {
    let none = build_index(&empty_config()).unwrap();
    assert!(none.is_empty());

    let mut config = empty_config();
    config.tasks = Some(vec![
        (
            "lint".to_string(),
            entry(
                vec![CommandValue::Argv(vec![
                    ArgValue::Text("cargo".to_string()),
                    ArgValue::Text("clippy".to_string()),
                ])],
                false,
            ),
        ),
        (
            "ci".to_string(),
            entry(vec![CommandValue::Reference("lint".to_string())], false),
        ),
    ]);
    let index = build_index(&config).unwrap();
    assert_eq!(index.len(), 2);
    let commands = index.flatten("ci").unwrap();
    assert_eq!(commands.len(), 1);
    assert_eq!(commands[0].origin, "lint");
}

#[test]
fn pipelines_look_up_by_verb() {
    let pipelines = Pipelines {
        fmt: None,
        lint: Some(vec!["lint".to_string()]),
        type_check: None,
        test: Some(vec!["test".to_string()]),
        fix: None,
        check: None,
        ci: None,
    };
    assert_eq!(
        pipeline_lookup(&pipelines, Verb::Lint),
        &Some(vec!["lint".to_string()])
    );
    assert_eq!(pipeline_lookup(&pipelines, Verb::Fmt), &None);
    assert_eq!(collect_pipeline_names(&pipelines), vec!["lint", "test"]);
    assert_eq!(Verb::TypeCheck.as_str(), "type");
    assert_eq!(Verb::Ci.as_str(), "ci");
}

#[test]
fn language_precedence_is_override_cli_project_default() {
    let cli = Some("cli".to_string());
    let project = Some("proj".to_string());
    let default = Some("def".to_string());
    assert_eq!(
        effective_language(Some("over".to_string()), &cli, &project, &default),
        Some("over".to_string())
    );
    assert_eq!(
        effective_language(None, &cli, &project, &default),
        Some("cli".to_string())
    );
    assert_eq!(
        effective_language(None, &None, &project, &default),
        Some("proj".to_string())
    );
    assert_eq!(
        effective_language(None, &None, &None, &default),
        Some("def".to_string())
    );
    assert_eq!(effective_language(None, &None, &None, &None), None);
}

#[test]
fn versions_parse_and_render() {
    let v = parse_version("1.2.3").unwrap();
    assert_eq!((v.major, v.minor, v.patch), (1, 2, 3));
    assert_eq!(v.render(), "1.2.3");

    let pre = parse_version("2.0.0-alpha.1+build5").unwrap();
    assert_eq!(pre.pre, "alpha.1");
    assert_eq!(pre.build, "build5");
    assert_eq!(pre.render(), "2.0.0-alpha.1+build5");

    assert!(parse_version("not a version").is_err());
}

#[test]
fn level_bumps_zero_lower_fields() {
    let v = parse_version("1.2.3").unwrap();
    let major = increment_version(&v, BumpLevel::Major).unwrap();
    assert_eq!(major.render(), "2.0.0");
    let minor = increment_version(&v, BumpLevel::Minor).unwrap();
    assert_eq!(minor.render(), "1.3.0");
    let patch = increment_version(&v, BumpLevel::Patch).unwrap();
    assert_eq!(patch.render(), "1.2.4");
}

#[test]
fn prerelease_bumps_advance_or_open_the_chain() {
    let bare = Version::new(1, 0, 0);
    assert_eq!(bump_prerelease(&bare).unwrap().render(), "1.0.0-alpha.1");

    let alpha = parse_version("1.0.0-alpha.1").unwrap();
    assert_eq!(bump_prerelease(&alpha).unwrap().render(), "1.0.0-alpha.2");

    let rc = parse_version("1.0.0-rc").unwrap();
    assert_eq!(bump_prerelease(&rc).unwrap().render(), "1.0.0-rc.1");

    let via_level = increment_version(&alpha, BumpLevel::Prerelease).unwrap();
    assert_eq!(via_level.render(), "1.0.0-alpha.2");
}

#[test]
fn digit_strings_parse_exactly() {
    assert_eq!(parse_u64("0"), Some(0));
    assert_eq!(parse_u64("907"), Some(907));
    assert_eq!(parse_u64(""), None);
    assert_eq!(parse_u64("12a"), None);
    assert_eq!(parse_u64("18446744073709551615"), Some(u64::MAX));
    assert_eq!(parse_u64("18446744073709551616"), None);
}

#[test]
fn splitting_keeps_empty_pieces() {
    assert_eq!(split_on("a.b.c", '.'), vec!["a", "b", "c"]);
    assert_eq!(split_on("a..", '.'), vec!["a", "", ""]);
    assert_eq!(split_on("", '.'), vec![""]);
}

#[test]
fn changelog_sections_land_below_the_unreleased_heading() {
    let content = "# Changelog\n\n## Unreleased\n\n## 1.0.0\n";
    let merged = insert_changelog_section(content, "## 1.1.0\n- change\n");
    assert_eq!(
        merged,
        "# Changelog\n\n## Unreleased\n\n## 1.1.0\n- change\n\n## 1.0.0\n"
    );
    let appended = insert_changelog_section("# Changelog", "## 1.0.0\n");
    assert_eq!(appended, "# Changelog\n## 1.0.0\n");
    let fresh = insert_changelog_section("", "## 1.0.0\n");
    assert_eq!(fresh, "## 1.0.0\n");
}

#[test]
fn config_error_messages_carry_the_detail() {
    let err = ConfigError::NonStringArgument { task: "t".to_string(), detail: "7".to_string() };
    assert_eq!(err.message(), "task `t` contains non-string command argument: 7");
    let err = ConfigError::UnsupportedValue { task: "t".to_string(), detail: "3.5".to_string() };
    assert_eq!(err.message(), "task `t` contains unsupported command value: 3.5");
}
