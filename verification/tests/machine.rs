use devflow::component::Component;
use devflow::detect::{
    detect_cuda_toolkit_host, detect_system_packages, detect_versioned, gpu_fields,
    install_cuda_toolkit_host, parse_nvcc_release, Probe,
};
use devflow::orchestrate::InstallState;
use devflow::setup::{
    generate_pm2_service, Architecture, Platform, SetupConfig, SetupConfigError, SetupContext,
    SetupLogger,
};

fn bare_probe() -> Probe {
    Probe {
        has_gcc: false,
        has_make: false,
        has_git: false,
        git_lfs_present: false,
        git_lfs_version: None,
        uv_version: None,
        rustup_version: None,
        node_version: None,
        nvm_dir_present: false,
        pnpm_version: None,
        pnpm_binary_present: false,
        pm2_version: None,
        pm2_service_present: false,
        docker_version: None,
        docker_service_active: false,
        in_docker_group: false,
        nvidia_cli_present: false,
        docker_info: None,
        nvidia_smi_present: false,
        gpu_query: None,
        cuda_dir_present: false,
        nvcc_output: None,
        zoxide_version: None,
        atuin_version: None,
        ngrok_version: None,
        bashrc: None,
    }
}

#[test]
fn system_packages_classify_missing_tools() {
    match detect_system_packages(true, false, false) {
        InstallState::Partial { reasons } => {
            assert_eq!(reasons, vec!["make not found", "git not found"]);
        }
        other => panic!("expected a partial state, got {:?}", other),
    }
    match detect_system_packages(true, true, true) {
        InstallState::Installed { version, details } => {
            assert!(version.is_none());
            assert_eq!(details, vec!["build-essential and core tools present"]);
        }
        other => panic!("expected an installed state, got {:?}", other),
    }
}

#[test]
fn versioned_tools_classify_by_answer() {
    assert!(matches!(
        detect_versioned(Some("zoxide 0.9.4".to_string())),
        InstallState::Installed { .. }
    ));
    assert!(matches!(detect_versioned(None), InstallState::NotInstalled));
}

#[test]
fn docker_classification_reads_service_and_group() {
    let mut probe = bare_probe();
    probe.docker_version = Some("Docker version 27.0".to_string());
    probe.docker_service_active = true;
    probe.in_docker_group = false;
    match Component::Docker.detect(&probe) {
        InstallState::Partial { reasons } => {
            assert_eq!(reasons, vec!["user not in docker group"]);
        }
        other => panic!("expected a partial state, got {:?}", other),
    }
    probe.in_docker_group = true;
    assert!(matches!(
        Component::Docker.detect(&probe),
        InstallState::Installed { .. }
    ));
    assert!(matches!(
        Component::Docker.detect(&bare_probe()),
        InstallState::NotInstalled
    ));
}

#[test]
fn pm2_needs_its_service_for_a_full_install() {
    let mut probe = bare_probe();
    probe.pm2_version = Some("5.4.0".to_string());
    assert!(matches!(
        Component::Pm2.detect(&probe),
        InstallState::Partial { .. }
    ));
    probe.pm2_service_present = true;
    match Component::Pm2.detect(&probe) {
        InstallState::Installed { version, details } => {
            assert_eq!(version.as_deref(), Some("5.4.0"));
            assert_eq!(details, vec!["systemd service configured"]);
        }
        other => panic!("expected an installed state, got {:?}", other),
    }
}

#[test]
fn nvcc_release_parses_from_version_output() {
    let out = "nvcc: NVIDIA (R) Cuda compiler driver\nCuda compilation tools, release 12.0, V12.0.140\n";
    assert_eq!(parse_nvcc_release(out), Some("12.0".to_string()));
    assert_eq!(parse_nvcc_release("no version here"), None);
}

#[test]
fn gpu_query_splits_into_driver_and_capability() {
    assert_eq!(
        gpu_fields(" 535.54, 8.9 \n"),
        Some(("535.54".to_string(), "8.9".to_string()))
    );
    assert_eq!(gpu_fields("just one field"), None);
}

#[test]
fn cuda_host_classification_and_messages() {
    let st = detect_cuda_toolkit_host(
        true,
        &Some("535.54, 8.9".to_string()),
        true,
        &Some("Cuda compilation tools, release 12.0, V12.0.140".to_string()),
    );
    match &st {
        InstallState::Installed { version, details } => {
            assert_eq!(version.as_deref(), Some("12.0"));
            assert_eq!(details, &vec![
                "driver: 535.54".to_string(),
                "compute capability: 8.9".to_string(),
            ]);
        }
        other => panic!("expected an installed state, got {:?}", other),
    }
    let lines = install_cuda_toolkit_host(&st);
    assert_eq!(lines[0], "CUDA toolkit already installed: 12.0");

    let missing = detect_cuda_toolkit_host(false, &None, false, &None);
    assert!(matches!(missing, InstallState::NotInstalled));
    let warnings = install_cuda_toolkit_host(&missing);
    assert_eq!(warnings.len(), 3);
    assert_eq!(warnings[0], "No CUDA installation detected");
}

#[test]
fn platform_and_architecture_classify() {
    let ubuntu = "NAME=\"Ubuntu\"\nID=ubuntu\n".to_string();
    assert_eq!(Platform::classify(Some(&ubuntu)), Platform::Ubuntu);
    let debian = "ID=debian".to_string();
    assert_eq!(Platform::classify(Some(&debian)), Platform::Debian);
    assert_eq!(Platform::classify(None), Platform::Unknown);
    assert_eq!(Platform::Ubuntu.as_str(), "ubuntu");
    assert_eq!(Platform::Unknown.package_manager(), "apt");

    assert_eq!(Architecture::classify("x86_64"), Some(Architecture::X86_64));
    assert_eq!(Architecture::classify("aarch64"), Some(Architecture::Aarch64));
    assert_eq!(Architecture::classify("riscv64"), None);
    assert_eq!(Architecture::Aarch64.as_str(), "aarch64");
}

#[test]
fn setup_config_validation_finds_each_fault() {
    let good = SetupConfig::standard();
    assert!(good.validate().is_ok());

    let mut unknown = SetupConfig::standard();
    unknown.default_components.push("warp_drive".to_string());
    assert!(matches!(
        unknown.validate(),
        Err(SetupConfigError::UnknownDefault { .. })
    ));

    let mut empty_node = SetupConfig::standard();
    empty_node.node_version = String::new();
    assert!(matches!(
        empty_node.validate(),
        Err(SetupConfigError::EmptyNodeVersion)
    ));

    let mut conflict = SetupConfig::standard();
    conflict.skip_components.push("node".to_string());
    match conflict.validate() {
        Err(SetupConfigError::Conflict { name }) => assert_eq!(name, "node"),
        other => panic!("expected a conflict error, got {:?}", other),
    }

    let ctx = SetupContext::new(
        Architecture::X86_64,
        Platform::Ubuntu,
        false,
        true,
        None,
        SetupConfig::standard(),
    )
    .unwrap();
    assert!(ctx.dry_run);
    assert!(SetupContext::new(
        Architecture::X86_64,
        Platform::Ubuntu,
        false,
        true,
        None,
        conflict,
    )
    .is_err());
}

#[test]
fn logger_lines_and_file_entries() {
    let line = SetupLogger::line("ok", "docker", "Installing Docker");
    assert_eq!(line, "[ok] docker: Installing Docker");

    let logger = SetupLogger::new(Some("setup.log".to_string()), false);
    let entry = logger
        .log_command("docker", "apt update", Some("done"), None, "ok", "2024-01-01 00:00:00")
        .unwrap();
    assert_eq!(
        entry,
        "\n== component: docker ==\ntime: 2024-01-01 00:00:00\nstatus: ok\nmessage: apt update\nstdout:\ndone\n"
    );
    let silent = SetupLogger::new(None, false);
    assert!(silent.log_command("x", "y", None, None, "ok", "t").is_none());
}

#[test]
fn pm2_service_text_carries_user_and_paths() {
    let unit = generate_pm2_service("dev", "/home/dev", "/home/dev/setup/pm2-startup.sh");
    assert!(unit.contains("User=dev\n"));
    assert!(unit.contains("Environment=HOME=/home/dev\n"));
    assert!(unit.contains("ExecStart=/home/dev/setup/pm2-startup.sh\n"));
    assert!(unit.starts_with("[Unit]\n"));
}

fn plan_context() -> SetupContext {
    SetupContext::new(
        Architecture::X86_64,
        Platform::Ubuntu,
        false,
        false,
        None,
        SetupConfig::standard(),
    )
    .unwrap()
}

fn plan_facts() -> devflow::setup::InstallFacts {
    devflow::setup::InstallFacts {
        user: "dev".to_string(),
        home: "/home/dev".to_string(),
        docker_dir_present: true,
        nvm_script_present: true,
        pm2_service_present: true,
    }
}

#[test]
fn install_plans_order_their_commands() {
    let ctx = plan_context();
    let facts = plan_facts();

    let plan = Component::SystemPackages.install_plan(&ctx, &facts);
    assert_eq!(plan.len(), 2);
    assert_eq!(plan[0], vec!["sudo".to_string(), "apt".to_string(), "update".to_string()]);
    assert_eq!(plan[1][0..4], ["sudo", "apt", "install", "-y"].map(String::from));
    assert_eq!(plan[1].len(), 26);
    assert!(plan[1].contains(&"libssl-dev".to_string()));
    assert!(plan[1].contains(&"cmake".to_string()));

    let node = Component::Node.install_plan(&ctx, &facts);
    assert_eq!(node.len(), 2);
    assert!(node[0][2].contains("nvm-sh/nvm"));
    assert!(node[1][2].ends_with("nvm install 22 && nvm use 22"));

    assert!(Component::CudaToolkitHost.install_plan(&ctx, &facts).is_empty());
    assert!(Component::RmGuard.install_plan(&ctx, &facts).is_empty());
    assert_eq!(
        Component::Pm2.install_plan(&ctx, &facts),
        vec![vec![
            "pnpm".to_string(),
            "install".to_string(),
            "-g".to_string(),
            "pm2".to_string(),
        ]]
    );
}

#[test]
fn docker_plan_carries_repo_key_group_and_services() {
    let ctx = plan_context();
    let facts = plan_facts();
    let plan = Component::Docker.install_plan(&ctx, &facts);
    assert_eq!(plan.len(), 14);
    assert!(plan[2].contains(&"https://download.docker.com/linux/ubuntu/gpg".to_string()));
    assert!(plan[4][2].contains("deb [arch=amd64 signed-by=/etc/apt/keyrings/docker.asc]"));
    assert!(plan[6].contains(&"docker-buildx-plugin".to_string()));
    assert!(plan[6].contains(&"docker-compose-plugin".to_string()));
    assert_eq!(plan[8], vec![
        "sudo".to_string(),
        "usermod".to_string(),
        "-aG".to_string(),
        "docker".to_string(),
        "dev".to_string(),
    ]);
    assert_eq!(plan[9][2], "dev:dev");
    assert_eq!(plan[9][4], "/home/dev/.docker");
    assert!(plan.contains(&vec![
        "sudo".to_string(),
        "systemctl".to_string(),
        "enable".to_string(),
        "containerd.service".to_string(),
    ]));

    let mut no_dir = plan_facts();
    no_dir.docker_dir_present = false;
    assert_eq!(Component::Docker.install_plan(&ctx, &no_dir).len(), 12);
}

#[test]
fn pm2_plan_installs_the_service_when_missing() {
    let ctx = plan_context();
    let mut facts = plan_facts();
    facts.pm2_service_present = false;
    let plan = Component::Pm2.install_plan(&ctx, &facts);
    assert_eq!(plan.len(), 7);
    assert_eq!(plan[1], vec![
        "mkdir".to_string(),
        "-p".to_string(),
        "/home/dev/setup".to_string(),
    ]);
    assert_eq!(plan[2], vec![
        "chmod".to_string(),
        "755".to_string(),
        "/home/dev/setup/pm2-startup.sh".to_string(),
    ]);
    assert!(plan[3].contains(&"/etc/systemd/system/pm2-resurrect.service".to_string()));
    assert_eq!(plan[6], vec![
        "sudo".to_string(),
        "systemctl".to_string(),
        "start".to_string(),
        "pm2-resurrect".to_string(),
    ]);
    assert!(devflow::setup::PM2_STARTUP_SCRIPT.contains("resurrect"));
    assert_eq!(
        devflow::setup::pm2_script_path("/home/dev"),
        "/home/dev/setup/pm2-startup.sh"
    );
}

#[test]
fn prerequisites_name_the_needed_binaries() {
    assert_eq!(Component::GitLfs.prerequisites(), vec!["git".to_string()]);
    assert_eq!(
        Component::Pnpm.prerequisites(),
        vec!["curl".to_string(), "node".to_string()]
    );
    assert_eq!(Component::Pm2.prerequisites(), vec!["pnpm".to_string()]);
    assert_eq!(
        Component::NvidiaContainerRuntime.prerequisites(),
        vec!["docker".to_string()]
    );
    assert!(Component::SystemPackages.prerequisites().is_empty());
    assert_eq!(
        devflow::setup::missing_prerequisite_message("curl"),
        "curl is required but not installed"
    );
}
