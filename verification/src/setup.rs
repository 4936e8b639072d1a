//! The setup run's context: machine classification, the setup
//! configuration and its validation, and the log and service-file text
//! the setup flow writes.

use vstd::prelude::*;
use crate::component::{spec_component_of, Component};

verus! {

/// The machine's processor architecture.
#[derive(Clone, Copy, Debug, PartialEq, Eq, Structural)]
pub enum Architecture {
    X86_64,
    Aarch64,
}

impl Architecture {
    /// Classify the architecture name the platform reports; only the two
    /// supported names are accepted.
    pub fn classify(arch: &str) -> (r: Option<Architecture>)
        ensures
            arch@ == "x86_64"@ ==> r == Some(Architecture::X86_64),
            arch@ == "aarch64"@ ==> r == Some(Architecture::Aarch64),
            arch@ != "x86_64"@ && arch@ != "aarch64"@ ==> r is None,
    {
        proof {
            reveal_strlit("x86_64");
            reveal_strlit("aarch64");
            assert("x86_64"@.len() == 6);
            assert("aarch64"@.len() == 7);
            assert("x86_64"@ != "aarch64"@);
        }
        if crate::text::str_eq(arch, "x86_64") {
            Some(Architecture::X86_64)
        } else if crate::text::str_eq(arch, "aarch64") {
            Some(Architecture::Aarch64)
        } else {
            None
        }
    }

    /// The architecture's name.
    pub fn as_str(&self) -> (r: &'static str)
        ensures
            *self is X86_64 ==> r@ == "x86_64"@,
            *self is Aarch64 ==> r@ == "aarch64"@,
    {
        match self {
            Architecture::X86_64 => "x86_64",
            Architecture::Aarch64 => "aarch64",
        }
    }
}

/// The operating system flavour, as far as setup distinguishes it.
#[derive(Clone, Copy, Debug, PartialEq, Eq, Structural)]
pub enum Platform {
    Ubuntu,
    Debian,
    Unknown,
}

impl Platform {
    /// Classify the platform from the text of the OS release file, when
    /// the caller could read one.
    pub fn classify(os_release: Option<&String>) -> (r: Platform)
        ensures
            match os_release {
                Some(content) => {
                    &&& crate::text::spec_has_sub(content@, "ID=ubuntu"@) ==> r is Ubuntu
                    &&& !crate::text::spec_has_sub(content@, "ID=ubuntu"@)
                        && crate::text::spec_has_sub(content@, "ID=debian"@) ==> r is Debian
                    &&& !crate::text::spec_has_sub(content@, "ID=ubuntu"@)
                        && !crate::text::spec_has_sub(content@, "ID=debian"@) ==> r is Unknown
                },
                None => r is Unknown,
            },
    {
        match os_release {
            Some(content) => {
                if crate::text::contains_sub(content.as_str(), "ID=ubuntu") {
                    Platform::Ubuntu
                } else if crate::text::contains_sub(content.as_str(), "ID=debian") {
                    Platform::Debian
                } else {
                    Platform::Unknown
                }
            },
            None => Platform::Unknown,
        }
    }

    /// The platform's name.
    pub fn as_str(&self) -> (r: &'static str)
        ensures
            *self is Ubuntu ==> r@ == "ubuntu"@,
            *self is Debian ==> r@ == "debian"@,
            *self is Unknown ==> r@ == "unknown"@,
    {
        match self {
            Platform::Ubuntu => "ubuntu",
            Platform::Debian => "debian",
            Platform::Unknown => "unknown",
        }
    }

    /// The package manager setup drives on this platform; apt is assumed
    /// when the platform is unknown.
    pub fn package_manager(&self) -> (r: &'static str)
        ensures
            r@ == "apt"@,
    {
        match self {
            Platform::Ubuntu | Platform::Debian => "apt",
            Platform::Unknown => "apt",
        }
    }
}

/// Why a setup configuration was rejected.
#[derive(Clone, Debug)]
pub enum SetupConfigError {
    /// A default component name matches nothing in the catalog.
    UnknownDefault { name: String },
    /// A skipped component name matches nothing in the catalog.
    UnknownSkip { name: String },
    /// The configured node version is empty.
    EmptyNodeVersion,
    /// A component stands in the default and the skip list at once.
    Conflict { name: String },
}

/// The first name of the list that no component of the catalog carries.
pub open spec fn spec_first_unknown(names: Seq<Seq<char>>, j: int) -> Option<Seq<char>>
    decreases names.len() - j,
{
    if j < 0 || j >= names.len() {
        None
    } else if spec_component_of(names[j]) is None {
        Some(names[j])
    } else {
        spec_first_unknown(names, j + 1)
    }
}

/// The first default component that also stands in the skip list.
pub open spec fn spec_first_overlap(defaults: Seq<Seq<char>>, skips: Seq<Seq<char>>, j: int) -> Option<
    Seq<char>,
>
    decreases defaults.len() - j,
{
    if j < 0 || j >= defaults.len() {
        None
    } else if skips.contains(defaults[j]) {
        Some(defaults[j])
    } else {
        spec_first_overlap(defaults, skips, j + 1)
    }
}

/// Configuration of a setup run.
#[derive(Clone, Debug)]
pub struct SetupConfig {
    pub cuda_version: Option<String>,
    pub nvidia_driver_version: Option<String>,
    pub cuda_driver_version: Option<String>,
    pub node_version: String,
    pub default_components: Vec<String>,
    pub skip_components: Vec<String>,
}

impl SetupConfig {
    /// Validate the configuration: every default and skip name must be a
    /// catalog component, the node version must not be empty, and no
    /// component may be defaulted and skipped at once.
    #[verifier::loop_isolation(false)]
    pub fn validate(&self) -> (r: Result<(), SetupConfigError>)
        ensures
            r is Ok <==> {
                &&& spec_first_unknown(self.default_components.deep_view(), 0) is None
                &&& spec_first_unknown(self.skip_components.deep_view(), 0) is None
                &&& self.node_version@.len() != 0
                &&& spec_first_overlap(
                    self.default_components.deep_view(),
                    self.skip_components.deep_view(),
                    0,
                ) is None
            },
            r matches Err(e) ==> match e {
                SetupConfigError::UnknownDefault { name } => spec_first_unknown(
                    self.default_components.deep_view(),
                    0,
                ) == Some(name@),
                SetupConfigError::UnknownSkip { name } => spec_first_unknown(
                    self.default_components.deep_view(),
                    0,
                ) is None && spec_first_unknown(self.skip_components.deep_view(), 0) == Some(
                    name@,
                ),
                SetupConfigError::EmptyNodeVersion => self.node_version@.len() == 0,
                SetupConfigError::Conflict { name } => spec_first_overlap(
                    self.default_components.deep_view(),
                    self.skip_components.deep_view(),
                    0,
                ) == Some(name@),
            },
    {
        let ghost dv = self.default_components.deep_view();
        let ghost sv = self.skip_components.deep_view();
        let mut i: usize = 0;
        while i < self.default_components.len()
            invariant
                i <= dv.len(),
                spec_first_unknown(dv, 0) == spec_first_unknown(dv, i as int),
            decreases dv.len() - i,
        {
            proof {
                assert(dv[i as int] == self.default_components@[i as int]@);
            }
            match Component::from_str(self.default_components[i].as_str()) {
                Ok(_) => {},
                Err(_) => {
                    return Err(
                        SetupConfigError::UnknownDefault {
                            name: self.default_components[i].clone(),
                        },
                    );
                },
            }
            i = i + 1;
        }
        proof {
            assert(spec_first_unknown(dv, dv.len() as int) is None);
        }
        let mut i: usize = 0;
        while i < self.skip_components.len()
            invariant
                i <= sv.len(),
                spec_first_unknown(sv, 0) == spec_first_unknown(sv, i as int),
            decreases sv.len() - i,
        {
            proof {
                assert(sv[i as int] == self.skip_components@[i as int]@);
            }
            match Component::from_str(self.skip_components[i].as_str()) {
                Ok(_) => {},
                Err(_) => {
                    return Err(
                        SetupConfigError::UnknownSkip { name: self.skip_components[i].clone() },
                    );
                },
            }
            i = i + 1;
        }
        proof {
            assert(spec_first_unknown(sv, sv.len() as int) is None);
        }
        if self.node_version.as_str().unicode_len() == 0 {
            return Err(SetupConfigError::EmptyNodeVersion);
        }
        let mut i: usize = 0;
        while i < self.default_components.len()
            invariant
                i <= dv.len(),
                spec_first_overlap(dv, sv, 0) == spec_first_overlap(dv, sv, i as int),
            decreases dv.len() - i,
        {
            proof {
                assert(dv[i as int] == self.default_components@[i as int]@);
            }
            if crate::text::vec_contains_str(
                &self.skip_components,
                self.default_components[i].as_str(),
            ) {
                return Err(
                    SetupConfigError::Conflict { name: self.default_components[i].clone() },
                );
            }
            i = i + 1;
        }
        proof {
            assert(spec_first_overlap(dv, sv, dv.len() as int) is None);
        }
        Ok(())
    }

    /// The defaults the setup flow assumes with no configuration file:
    /// core tooling, node version 22.
    pub fn standard() -> (r: SetupConfig)
        ensures
            r.node_version@ == "22"@,
            r.skip_components@.len() == 0,
            r.default_components.deep_view() =~= seq![
                "system_packages"@,
                "git_lfs"@,
                "uv"@,
                "rustup"@,
                "node"@,
                "pnpm"@,
            ],
    {
        let mut defaults: Vec<String> = Vec::new();
        defaults.push("system_packages".to_owned());
        defaults.push("git_lfs".to_owned());
        defaults.push("uv".to_owned());
        defaults.push("rustup".to_owned());
        defaults.push("node".to_owned());
        defaults.push("pnpm".to_owned());
        SetupConfig {
            cuda_version: None,
            nvidia_driver_version: None,
            cuda_driver_version: None,
            node_version: "22".to_owned(),
            default_components: defaults,
            skip_components: Vec::new(),
        }
    }
}

/// The structured log of a setup run: line formats, and the entry format
/// of the optional log file.
#[derive(Clone, Debug)]
pub struct SetupLogger {
    pub log_file: Option<String>,
    pub dry_run: bool,
}

impl SetupLogger {
    pub fn new(log_file: Option<String>, dry_run: bool) -> (r: SetupLogger)
        ensures
            r.dry_run == dry_run,
            match log_file {
                Some(f) => r.log_file matches Some(g) && g@ == f@,
                None => r.log_file is None,
            },
    {
        SetupLogger { log_file, dry_run }
    }

    /// The terminal line for a component message of a given kind:
    /// `[kind] component: message`.
    pub fn line(kind: &str, component: &str, message: &str) -> (r: String)
        ensures
            r@ == "["@ + kind@ + "] "@ + component@ + ": "@ + message@,
    {
        let mut out = String::new();
        out.append("[");
        out.append(kind);
        out.append("] ");
        out.append(component);
        out.append(": ");
        out.append(message);
        proof {
            assert(out@ =~= "["@ + kind@ + "] "@ + component@ + ": "@ + message@);
        }
        out
    }

    /// The entry appended to the log file for one executed command, with
    /// the timestamp the caller took.
    pub fn log_command(
        &self,
        component: &str,
        command: &str,
        stdout: Option<&str>,
        stderr: Option<&str>,
        status: &str,
        timestamp: &str,
    ) -> (r: Option<String>)
        ensures
            self.log_file is None <==> r is None,
            r matches Some(entry) ==> entry@ == "\n== component: "@ + component@ + " ==\ntime: "@
                + timestamp@ + "\nstatus: "@ + status@ + "\nmessage: "@ + command@ + "\n"@ + (match stdout {
                Some(out) => "stdout:\n"@ + out@ + "\n"@,
                None => Seq::<char>::empty(),
            }) + (match stderr {
                Some(err) => "stderr:\n"@ + err@ + "\n"@,
                None => Seq::<char>::empty(),
            }),
    {
        if self.log_file.is_none() {
            return None;
        }
        let mut entry = String::new();
        entry.append("\n== component: ");
        entry.append(component);
        entry.append(" ==\ntime: ");
        entry.append(timestamp);
        entry.append("\nstatus: ");
        entry.append(status);
        entry.append("\nmessage: ");
        entry.append(command);
        entry.append("\n");
        match stdout {
            Some(out) => {
                entry.append("stdout:\n");
                entry.append(out);
                entry.append("\n");
            },
            None => {},
        }
        match stderr {
            Some(err) => {
                entry.append("stderr:\n");
                entry.append(err);
                entry.append("\n");
            },
            None => {},
        }
        proof {
            assert(entry@ =~= "\n== component: "@ + component@ + " ==\ntime: "@ + timestamp@
                + "\nstatus: "@ + status@ + "\nmessage: "@ + command@ + "\n"@ + (match stdout {
                Some(out) => "stdout:\n"@ + out@ + "\n"@,
                None => Seq::<char>::empty(),
            }) + (match stderr {
                Some(err) => "stderr:\n"@ + err@ + "\n"@,
                None => Seq::<char>::empty(),
            }));
        }
        Some(entry)
    }
}

/// The context every setup step reads: machine classification, dry-run
/// flag, sudo availability, logging and configuration.
#[derive(Clone, Debug)]
pub struct SetupContext {
    pub arch: Architecture,
    pub platform: Platform,
    pub dry_run: bool,
    pub sudo: bool,
    pub log: SetupLogger,
    pub config: SetupConfig,
}

impl SetupContext {
    /// Build a context from the machine facts the caller probed,
    /// validating the configuration first.
    pub fn new(
        arch: Architecture,
        platform: Platform,
        sudo: bool,
        dry_run: bool,
        log_file: Option<String>,
        config: SetupConfig,
    ) -> (r: Result<SetupContext, SetupConfigError>)
        ensures
            match r {
                Ok(ctx) => spec_validate_ok(&config) && ctx.arch == arch && ctx.platform == platform
                    && ctx.dry_run == dry_run && ctx.sudo == sudo && ctx.log.dry_run == dry_run,
                Err(_) => !spec_validate_ok(&config),
            },
    {
        match config.validate() {
            Ok(_) => {},
            Err(e) => {
                return Err(e);
            },
        }
        let log = SetupLogger::new(log_file, dry_run);
        Ok(SetupContext { arch, platform, dry_run, sudo, log, config })
    }
}

/// Whether a configuration passes validation.
pub open spec fn spec_validate_ok(c: &SetupConfig) -> bool {
    &&& spec_first_unknown(c.default_components.deep_view(), 0) is None
    &&& spec_first_unknown(c.skip_components.deep_view(), 0) is None
    &&& c.node_version@.len() != 0
    &&& spec_first_overlap(c.default_components.deep_view(), c.skip_components.deep_view(), 0)
        is None
}

/// The systemd unit text that resurrects the process manager at boot,
/// for a given user, home directory and startup script path.
pub fn generate_pm2_service(user: &str, home: &str, script_path: &str) -> (r: String)
    ensures
        r@ == "[Unit]\nDescription=PM2 Process Manager Resurrect\nAfter=network.target\n\n[Service]\nType=oneshot\nUser="@
            + user@ + "\nEnvironment=HOME="@ + home@ + "\nWorkingDirectory="@ + home@
            + "\nExecStart="@ + script_path@
            + "\nRemainAfterExit=yes\n\n[Install]\nWantedBy=multi-user.target\n"@,
{
    let mut out = String::new();
    out.append(
        "[Unit]\nDescription=PM2 Process Manager Resurrect\nAfter=network.target\n\n[Service]\nType=oneshot\nUser=",
    );
    out.append(user);
    out.append("\nEnvironment=HOME=");
    out.append(home);
    out.append("\nWorkingDirectory=");
    out.append(home);
    out.append("\nExecStart=");
    out.append(script_path);
    out.append("\nRemainAfterExit=yes\n\n[Install]\nWantedBy=multi-user.target\n");
    proof {
        assert(out@
            =~= "[Unit]\nDescription=PM2 Process Manager Resurrect\nAfter=network.target\n\n[Service]\nType=oneshot\nUser="@
            + user@ + "\nEnvironment=HOME="@ + home@ + "\nWorkingDirectory="@ + home@
            + "\nExecStart="@ + script_path@
            + "\nRemainAfterExit=yes\n\n[Install]\nWantedBy=multi-user.target\n"@);
    }
    out
}


fn push_owned(v: &mut Vec<String>, s: &str)
    ensures
        final(v).deep_view() =~= old(v).deep_view().push(s@),
{
    v.push(s.to_owned());
    proof {
        assert forall|j: int| 0 <= j < v@.len() implies v.deep_view()[j] == old(v).deep_view().push(
            s@,
        )[j] by {
            assert(v.deep_view()[j] == v@[j]@);
            if j < v@.len() - 1 {
                assert(old(v).deep_view()[j] == old(v)@[j]@);
            }
        }
    }
}

fn push_string(v: &mut Vec<String>, s: String)
    ensures
        final(v).deep_view() =~= old(v).deep_view().push(s@),
{
    let ghost sv = s@;
    v.push(s);
    proof {
        assert forall|j: int| 0 <= j < v@.len() implies v.deep_view()[j] == old(v).deep_view().push(
            sv,
        )[j] by {
            assert(v.deep_view()[j] == v@[j]@);
            if j < v@.len() - 1 {
                assert(old(v).deep_view()[j] == old(v)@[j]@);
            }
        }
    }
}

fn plan1(a: &str) -> (r: Vec<String>)
    ensures
        r.deep_view() =~= seq![a@],
{
    let mut v: Vec<String> = Vec::new();
    v.push(a.to_owned());
    v
}

fn plan2(a: &str, b: &str) -> (r: Vec<String>)
    ensures
        r.deep_view() =~= seq![a@, b@],
{
    let mut v: Vec<String> = Vec::new();
    v.push(a.to_owned());
    v.push(b.to_owned());
    v
}

fn plan3(a: &str, b: &str, c: &str) -> (r: Vec<String>)
    ensures
        r.deep_view() =~= seq![a@, b@, c@],
{
    let mut v: Vec<String> = Vec::new();
    v.push(a.to_owned());
    v.push(b.to_owned());
    v.push(c.to_owned());
    v
}

fn plan4(a: &str, b: &str, c: &str, d: &str) -> (r: Vec<String>)
    ensures
        r.deep_view() =~= seq![a@, b@, c@, d@],
{
    let mut v: Vec<String> = Vec::new();
    v.push(a.to_owned());
    v.push(b.to_owned());
    v.push(c.to_owned());
    v.push(d.to_owned());
    v
}

fn plan5(a: &str, b: &str, c: &str, d: &str, e: &str) -> (r: Vec<String>)
    ensures
        r.deep_view() =~= seq![a@, b@, c@, d@, e@],
{
    let mut v: Vec<String> = Vec::new();
    v.push(a.to_owned());
    v.push(b.to_owned());
    v.push(c.to_owned());
    v.push(d.to_owned());
    v.push(e.to_owned());
    v
}

fn plan6(a: &str, b: &str, c: &str, d: &str, e: &str, f: &str) -> (r: Vec<String>)
    ensures
        r.deep_view() =~= seq![a@, b@, c@, d@, e@, f@],
{
    let mut v: Vec<String> = Vec::new();
    v.push(a.to_owned());
    v.push(b.to_owned());
    v.push(c.to_owned());
    v.push(d.to_owned());
    v.push(e.to_owned());
    v.push(f.to_owned());
    v
}

/// The machine facts that shape an install plan, gathered by the caller:
/// who runs it, where home is, and which optional pieces already exist.
#[derive(Clone, Debug)]
pub struct InstallFacts {
    pub user: String,
    pub home: String,
    pub docker_dir_present: bool,
    pub nvm_script_present: bool,
    pub pm2_service_present: bool,
}

/// Mathematical image of [`InstallFacts`].
pub struct FactsModel {
    pub user: Seq<char>,
    pub home: Seq<char>,
    pub docker_dir_present: bool,
    pub nvm_script_present: bool,
    pub pm2_service_present: bool,
}

impl View for InstallFacts {
    type V = FactsModel;

    open spec fn view(&self) -> FactsModel {
        FactsModel {
            user: self.user@,
            home: self.home@,
            docker_dir_present: self.docker_dir_present,
            nvm_script_present: self.nvm_script_present,
            pm2_service_present: self.pm2_service_present,
        }
    }
}

/// The shell text that installs the node version manager.
pub open spec fn spec_nvm_install_script() -> Seq<char> {
    "curl -o- https://raw.githubusercontent.com/nvm-sh/nvm/v0.39.5/install.sh | bash"@
}

/// The shell text that installs and selects the configured node version
/// through the version manager.
pub open spec fn spec_node_install_script(node_version: Seq<char>) -> Seq<char> {
    "export NVM_DIR=\"$HOME/.nvm\" && [ -s \"$NVM_DIR/nvm.sh\" ] && . \"$NVM_DIR/nvm.sh\" && nvm install "@
        + node_version + " && nvm use "@ + node_version
}

/// The shell text that installs pnpm, with the version manager loaded
/// first when its script is present.
pub open spec fn spec_pnpm_install_script(nvm_script_present: bool) -> Seq<char> {
    if nvm_script_present {
        "export NVM_DIR=\"$HOME/.nvm\" && [ -s \"$NVM_DIR/nvm.sh\" ] && . \"$NVM_DIR/nvm.sh\" && curl -fsSL https://get.pnpm.io/install.sh | sh -"@
    } else {
        "curl -fsSL https://get.pnpm.io/install.sh | sh -"@
    }
}

/// The architecture name Debian package sources use.
pub open spec fn spec_deb_arch(arch: Architecture) -> Seq<char> {
    match arch {
        Architecture::X86_64 => "amd64"@,
        Architecture::Aarch64 => "arm64"@,
    }
}

/// The apt source line for the Docker repository on this architecture.
pub open spec fn spec_docker_repo_line(arch: Architecture) -> Seq<char> {
    "deb [arch="@ + spec_deb_arch(arch)
        + " signed-by=/etc/apt/keyrings/docker.asc] https://download.docker.com/linux/ubuntu $(. /etc/os-release && echo \"$VERSION_CODENAME\") stable"@
}

/// The shell text that writes the Docker repository source line.
pub open spec fn spec_docker_repo_cmd(arch: Architecture) -> Seq<char> {
    "echo '"@ + spec_docker_repo_line(arch)
        + "' | sudo tee /etc/apt/sources.list.d/docker.list > /dev/null"@
}

/// The startup script the process-manager service runs at boot: it
/// prepares the user's PATH, loads the node version manager when
/// present, and resurrects the saved process list.
pub const PM2_STARTUP_SCRIPT: &'static str = "#!/usr/bin/env bash\n\nset -euo pipefail\n\n# Create log directory if it doesn't exist\nLOG_DIR=\"$HOME/logs\"\nmkdir -p \"$LOG_DIR\"\nLOG_FILE=\"$LOG_DIR/pm2-startup.log\"\n\nexec >>\"$LOG_FILE\" 2>&1\necho \"==== PM2 startup invoked at $(date) ====\"\n\n# Wait for network to be up a bit (DNS, filesystems)\nsleep 5\n\n# Prepare PATH for user-scoped package managers\nexport PATH=\"$HOME/.local/bin:$HOME/bin:$PATH\"\nif [ -d \"$HOME/.local/share/pnpm\" ]; then\n  export PATH=\"$HOME/.local/share/pnpm:$PATH\"\nfi\n\n# Try to load NVM if present\nif [ -s \"$HOME/.nvm/nvm.sh\" ]; then\n  # shellcheck disable=SC1090\n  . \"$HOME/.nvm/nvm.sh\"\n  # Use default alias if available, otherwise attempt to use the highest installed version\n  if command -v nvm >/dev/null 2>&1; then\n    if nvm alias default >/dev/null 2>&1; then\n      nvm use --silent default || true\n    else\n      latest_node_dir=$(ls -1d \"$HOME/.nvm/versions/node\"/* 2>/dev/null | sort -V | tail -n1 || true)\n      if [ -n \"${latest_node_dir:-}\" ]; then\n        export PATH=\"$latest_node_dir/bin:$PATH\"\n      fi\n    fi\n  fi\nfi\n\necho \"PATH: $PATH\"\n\n# Verify Node.js is available\nif ! command -v node >/dev/null 2>&1; then\n  echo \"Error: Node.js not found in PATH\"\n  exit 1\nfi\n\n# Locate PM2\nPM2_BIN=\"$(command -v pm2 || true)\"\nif [ -z \"$PM2_BIN\" ]; then\n  # Common pnpm local install path fallback\n  if [ -x \"$HOME/.local/share/pnpm/pm2\" ]; then\n    PM2_BIN=\"$HOME/.local/share/pnpm/pm2\"\n  fi\nfi\n\nif [ -z \"$PM2_BIN\" ]; then\n  echo \"Error: pm2 not found in PATH\"\n  exit 1\nfi\n\necho \"Using pm2 at: $PM2_BIN\"\n\n# Resurrect previous processes\nif ! \"$PM2_BIN\" resurrect; then\n  echo \"Failed to resurrect PM2 at $(date)\"\n  exit 1\nfi\n\n# Save current state\nif ! \"$PM2_BIN\" save; then\n  echo \"Failed to save PM2 state at $(date)\"\n  exit 1\nfi\n\necho \"PM2 has been successfully resurrected at $(date)\"\n";

/// Where the startup script lives under a home directory.
pub fn pm2_script_path(home: &str) -> (r: String)
    ensures
        r@ == home@ + "/setup/pm2-startup.sh"@,
{
    let mut out = home.to_owned();
    out.append("/setup/pm2-startup.sh");
    out
}

/// The staging path the unit text is written to before it is moved into
/// place.
pub fn pm2_service_staging_path() -> (r: &'static str)
    ensures
        r@ == "/tmp/pm2-resurrect.service"@,
{
    "/tmp/pm2-resurrect.service"
}

/// Where the unit file ends up.
pub fn pm2_service_unit_path() -> (r: &'static str)
    ensures
        r@ == "/etc/systemd/system/pm2-resurrect.service"@,
{
    "/etc/systemd/system/pm2-resurrect.service"
}

/// The commands that install the process-manager service for a home
/// directory: create the setup directory, make the startup script
/// executable, move the staged unit into place, reload the service
/// manager, enable and start the unit. The caller writes
/// [`PM2_STARTUP_SCRIPT`] to [`pm2_script_path`] and the
/// [`generate_pm2_service`] text to the staging path before running
/// these.
pub open spec fn spec_pm2_service_plan(home: Seq<char>) -> Seq<Seq<Seq<char>>> {
    seq![
        seq!["mkdir"@, "-p"@, home + "/setup"@],
        seq!["chmod"@, "755"@, home + "/setup/pm2-startup.sh"@],
        seq![
            "sudo"@,
            "mv"@,
            "/tmp/pm2-resurrect.service"@,
            "/etc/systemd/system/pm2-resurrect.service"@,
        ],
        seq!["sudo"@, "systemctl"@, "daemon-reload"@],
        seq!["sudo"@, "systemctl"@, "enable"@, "pm2-resurrect"@],
        seq!["sudo"@, "systemctl"@, "start"@, "pm2-resurrect"@],
    ]
}

/// Build the process-manager service install steps.
pub fn pm2_service_install_plan(home: &str) -> (r: Vec<Vec<String>>)
    ensures
        r.deep_view() =~= spec_pm2_service_plan(home@),
{
    let mut steps: Vec<Vec<String>> = Vec::new();
    let mut setup_dir = home.to_owned();
    setup_dir.append("/setup");
    let mut mkdir = plan2("mkdir", "-p");
    push_string(&mut mkdir, setup_dir);
    proof {
        assert(mkdir.deep_view() =~= seq!["mkdir"@, "-p"@, home@ + "/setup"@]);
    }
    steps.push(mkdir);
    let mut chmod = plan2("chmod", "755");
    push_string(&mut chmod, pm2_script_path(home));
    proof {
        assert(chmod.deep_view() =~= seq!["chmod"@, "755"@, home@ + "/setup/pm2-startup.sh"@]);
    }
    steps.push(chmod);
    steps.push(
        plan4(
            "sudo",
            "mv",
            "/tmp/pm2-resurrect.service",
            "/etc/systemd/system/pm2-resurrect.service",
        ),
    );
    steps.push(plan3("sudo", "systemctl", "daemon-reload"));
    steps.push(plan4("sudo", "systemctl", "enable", "pm2-resurrect"));
    steps.push(plan4("sudo", "systemctl", "start", "pm2-resurrect"));
    proof {
        assert forall|j: int| 0 <= j < steps@.len() implies steps.deep_view()[j] == steps@[
            j
        ].deep_view() by {}
        assert(steps.deep_view() =~= spec_pm2_service_plan(home@));
    }
    steps
}

/// The binaries a component's install step needs before it can run; a
/// missing one is surfaced as an environment error instead of running
/// the plan.
pub open spec fn spec_prerequisites(c: Component) -> Seq<Seq<char>> {
    match c {
        Component::GitLfs => seq!["git"@],
        Component::Uv => seq!["curl"@],
        Component::Rustup => seq!["curl"@],
        Component::Node => seq!["curl"@],
        Component::Pnpm => seq!["curl"@, "node"@],
        Component::Pm2 => seq!["pnpm"@],
        Component::NvidiaContainerRuntime => seq!["docker"@],
        Component::Zoxide => seq!["cargo"@],
        Component::Atuin => seq!["curl"@],
        _ => Seq::empty(),
    }
}

/// The error message for a missing prerequisite binary.
pub fn missing_prerequisite_message(binary: &str) -> (r: String)
    ensures
        r@ == binary@ + " is required but not installed"@,
{
    let mut out = binary.to_owned();
    out.append(" is required but not installed");
    out
}

impl Component {
    /// The binaries this component's install step needs present.
    pub fn prerequisites(&self) -> (r: Vec<String>)
        ensures
            r.deep_view() =~= spec_prerequisites(*self),
    {
        match self {
            Component::GitLfs => plan1("git"),
            Component::Uv => plan1("curl"),
            Component::Rustup => plan1("curl"),
            Component::Node => plan1("curl"),
            Component::Pnpm => plan2("curl", "node"),
            Component::Pm2 => plan1("pnpm"),
            Component::NvidiaContainerRuntime => plan1("docker"),
            Component::Zoxide => plan1("cargo"),
            Component::Atuin => plan1("curl"),
            _ => {
                let v: Vec<String> = Vec::new();
                proof {
                    assert(v.deep_view() =~= Seq::<Seq<char>>::empty());
                }
                v
            },
        }
    }

    /// The commands this component's install step runs, in order, given
    /// the context's configuration and the probed install facts. The
    /// CUDA host component validates only and the shell-guard component
    /// edits a shell file instead of running commands: both plan
    /// nothing.
    pub fn install_plan(&self, ctx: &SetupContext, facts: &InstallFacts) -> (r: Vec<Vec<String>>)
        ensures
            r.deep_view() =~= spec_install_plan(
                *self,
                ctx.config.node_version@,
                ctx.arch,
                facts@,
            ),
    {
        let mut steps: Vec<Vec<String>> = Vec::new();
        match self {
            Component::SystemPackages => {
                steps.push(plan3("sudo", "apt", "update"));
                steps.push(plan_install_packages());
            },
            Component::GitLfs => {
                steps.push(plan3("git", "lfs", "install"));
            },
            Component::Uv => {
                steps.push(plan3("sh", "-c", "curl -LsSf https://astral.sh/uv/install.sh | sh"));
            },
            Component::Rustup => {
                steps.push(
                    plan3(
                        "sh",
                        "-c",
                        "curl --proto '=https' --tlsv1.2 -sSf https://sh.rustup.rs | sh -s -- -y",
                    ),
                );
            },
            Component::Node => {
                steps.push(
                    plan3(
                        "sh",
                        "-c",
                        "curl -o- https://raw.githubusercontent.com/nvm-sh/nvm/v0.39.5/install.sh | bash",
                    ),
                );
                let mut script = String::new();
                script.append(
                    "export NVM_DIR=\"$HOME/.nvm\" && [ -s \"$NVM_DIR/nvm.sh\" ] && . \"$NVM_DIR/nvm.sh\" && nvm install ",
                );
                script.append(ctx.config.node_version.as_str());
                script.append(" && nvm use ");
                script.append(ctx.config.node_version.as_str());
                proof {
                    assert(script@ =~= spec_node_install_script(ctx.config.node_version@));
                }
                let mut argv = plan2("bash", "-c");
                push_string(&mut argv, script);
                proof {
                    assert(argv.deep_view() =~= seq![
                        "bash"@,
                        "-c"@,
                        spec_node_install_script(ctx.config.node_version@),
                    ]);
                }
                steps.push(argv);
            },
            Component::Pnpm => {
                let mut argv = plan2("bash", "-c");
                if facts.nvm_script_present {
                    push_owned(
                        &mut argv,
                        "export NVM_DIR=\"$HOME/.nvm\" && [ -s \"$NVM_DIR/nvm.sh\" ] && . \"$NVM_DIR/nvm.sh\" && curl -fsSL https://get.pnpm.io/install.sh | sh -",
                    );
                } else {
                    push_owned(&mut argv, "curl -fsSL https://get.pnpm.io/install.sh | sh -");
                }
                proof {
                    assert(argv.deep_view() =~= seq![
                        "bash"@,
                        "-c"@,
                        spec_pnpm_install_script(facts@.nvm_script_present),
                    ]);
                }
                steps.push(argv);
            },
            Component::Pm2 => {
                steps.push(plan4("pnpm", "install", "-g", "pm2"));
                if !facts.pm2_service_present {
                    let service = pm2_service_install_plan(facts.home.as_str());
                    let ghost head = steps.deep_view();
                    let ghost tail = service.deep_view();
                    let mut k: usize = 0;
                    while k < service.len()
                        invariant
                            k <= tail.len(),
                            tail == service.deep_view(),
                            tail.len() == service@.len(),
                            steps.deep_view() =~= head + tail.take(k as int),
                        decreases tail.len() - k,
                    {
                        let unit = crate::text::clone_string_vec(&service[k]);
                        proof {
                            assert(service.deep_view()[k as int] == service@[k as int].deep_view());
                            assert(unit.deep_view() == tail[k as int]);
                        }
                        let ghost cur = steps.deep_view();
                        steps.push(unit);
                        proof {
                            assert forall|j: int| 0 <= j < steps@.len() implies steps.deep_view()[j]
                                == cur.push(tail[k as int])[j] by {
                                assert(steps.deep_view()[j] == steps@[j].deep_view());
                            }
                            assert(steps.deep_view() =~= cur.push(tail[k as int]));
                            assert(tail.take(k + 1) =~= tail.take(k as int).push(tail[k as int]));
                        }
                        k = k + 1;
                    }
                    proof {
                        assert(tail.take(tail.len() as int) =~= tail);
                    }
                }
            },
            Component::Docker => {
                steps.push(plan6("sudo", "apt-get", "install", "-y", "ca-certificates", "curl"));
                steps.push(plan6("sudo", "install", "-m", "0755", "-d", "/etc/apt/keyrings"));
                steps.push(
                    plan6(
                        "sudo",
                        "curl",
                        "-fsSL",
                        "https://download.docker.com/linux/ubuntu/gpg",
                        "-o",
                        "/etc/apt/keyrings/docker.asc",
                    ),
                );
                steps.push(plan4("sudo", "chmod", "a+r", "/etc/apt/keyrings/docker.asc"));
                let mut repo_cmd = String::new();
                repo_cmd.append("echo '");
                repo_cmd.append("deb [arch=");
                match ctx.arch {
                    Architecture::X86_64 => repo_cmd.append("amd64"),
                    Architecture::Aarch64 => repo_cmd.append("arm64"),
                }
                repo_cmd.append(
                    " signed-by=/etc/apt/keyrings/docker.asc] https://download.docker.com/linux/ubuntu $(. /etc/os-release && echo \"$VERSION_CODENAME\") stable",
                );
                repo_cmd.append("' | sudo tee /etc/apt/sources.list.d/docker.list > /dev/null");
                proof {
                    assert(repo_cmd@ =~= spec_docker_repo_cmd(ctx.arch));
                }
                let mut repo = plan2("sh", "-c");
                push_string(&mut repo, repo_cmd);
                proof {
                    assert(repo.deep_view() =~= seq!["sh"@, "-c"@, spec_docker_repo_cmd(ctx.arch)]);
                }
                steps.push(repo);
                steps.push(plan3("sudo", "apt-get", "update"));
                let mut packages = plan4("sudo", "apt-get", "install", "-y");
                push_owned(&mut packages, "docker-ce");
                push_owned(&mut packages, "docker-ce-cli");
                push_owned(&mut packages, "containerd.io");
                push_owned(&mut packages, "docker-buildx-plugin");
                push_owned(&mut packages, "docker-compose-plugin");
                proof {
                    assert(packages.deep_view() =~= seq![
                        "sudo"@,
                        "apt-get"@,
                        "install"@,
                        "-y"@,
                        "docker-ce"@,
                        "docker-ce-cli"@,
                        "containerd.io"@,
                        "docker-buildx-plugin"@,
                        "docker-compose-plugin"@,
                    ]);
                }
                steps.push(packages);
                steps.push(plan4("sudo", "groupadd", "-f", "docker"));
                let mut usermod = plan4("sudo", "usermod", "-aG", "docker");
                push_owned(&mut usermod, facts.user.as_str());
                proof {
                    assert(usermod.deep_view() =~= seq![
                        "sudo"@,
                        "usermod"@,
                        "-aG"@,
                        "docker"@,
                        facts@.user,
                    ]);
                }
                steps.push(usermod);
                if facts.docker_dir_present {
                    let mut owner = facts.user.clone();
                    owner.append(":");
                    owner.append(facts.user.as_str());
                    let mut docker_dir = facts.home.clone();
                    docker_dir.append("/.docker");
                    proof {
                        reveal_strlit(":");
                        assert(owner@ =~= facts@.user + ":"@ + facts@.user);
                        assert(docker_dir@ =~= facts@.home + "/.docker"@);
                    }
                    let mut chown = plan2("sudo", "chown");
                    push_string(&mut chown, owner);
                    push_owned(&mut chown, "-R");
                    push_string(&mut chown, docker_dir.clone());
                    proof {
                        assert(chown.deep_view() =~= seq![
                            "sudo"@,
                            "chown"@,
                            facts@.user + ":"@ + facts@.user,
                            "-R"@,
                            facts@.home + "/.docker"@,
                        ]);
                    }
                    steps.push(chown);
                    let mut chmod = plan4("sudo", "chmod", "g+rwx", "-R");
                    push_string(&mut chmod, docker_dir);
                    proof {
                        assert(chmod.deep_view() =~= seq![
                            "sudo"@,
                            "chmod"@,
                            "g+rwx"@,
                            "-R"@,
                            facts@.home + "/.docker"@,
                        ]);
                    }
                    steps.push(chmod);
                }
                steps.push(plan4("sudo", "systemctl", "enable", "docker.service"));
                steps.push(plan4("sudo", "systemctl", "enable", "containerd.service"));
                steps.push(plan4("sudo", "systemctl", "start", "docker"));
            },
            Component::NvidiaContainerRuntime => {
                steps.push(
                    plan3(
                        "sh",
                        "-c",
                        "curl -fsSL https://nvidia.github.io/libnvidia-container/gpgkey | sudo gpg --dearmor -o /usr/share/keyrings/nvidia-container-toolkit-keyring.gpg",
                    ),
                );
                steps.push(
                    plan3(
                        "sh",
                        "-c",
                        "curl -s -L https://nvidia.github.io/libnvidia-container/stable/deb/nvidia-container-toolkit.list | sed 's#deb https://#deb [signed-by=/usr/share/keyrings/nvidia-container-toolkit-keyring.gpg] https://#g' | sudo tee /etc/apt/sources.list.d/nvidia-container-toolkit.list",
                    ),
                );
                steps.push(plan3("sudo", "apt-get", "update"));
                steps.push(
                    plan5("sudo", "apt-get", "install", "-y", "nvidia-container-toolkit"),
                );
                steps.push(
                    plan5("sudo", "nvidia-ctk", "runtime", "configure", "--runtime=docker"),
                );
                steps.push(plan4("sudo", "systemctl", "restart", "docker"));
            },
            Component::CudaToolkitHost => {},
            Component::Zoxide => {
                steps.push(plan3("cargo", "install", "zoxide"));
            },
            Component::Atuin => {
                steps.push(
                    plan3(
                        "sh",
                        "-c",
                        "curl --proto '=https' --tlsv1.2 -LsSf https://setup.atuin.sh | sh",
                    ),
                );
            },
            Component::Ngrok => {
                steps.push(
                    plan3(
                        "sh",
                        "-c",
                        "curl -s https://ngrok-agent.s3.amazonaws.com/ngrok.asc | sudo tee /etc/apt/trusted.gpg.d/ngrok.asc >/dev/null",
                    ),
                );
                steps.push(
                    plan3(
                        "sh",
                        "-c",
                        "echo 'deb https://ngrok-agent.s3.amazonaws.com buster main' | sudo tee /etc/apt/sources.list.d/ngrok.list",
                    ),
                );
                steps.push(plan3("sudo", "apt", "update"));
                steps.push(plan5("sudo", "apt", "install", "-y", "ngrok"));
            },
            Component::RmGuard => {},
        }
        proof {
            assert forall|j: int| 0 <= j < steps@.len() implies steps.deep_view()[j] == steps@[
                j
            ].deep_view() by {}
            assert(steps.deep_view() =~= spec_install_plan(
                *self,
                ctx.config.node_version@,
                ctx.arch,
                facts@,
            ));
        }
        steps
    }
}

fn plan_install_packages() -> (r: Vec<String>)
    ensures
        r.deep_view() =~= seq![
            "sudo"@,
            "apt"@,
            "install"@,
            "-y"@,
            "build-essential"@,
            "libssl-dev"@,
            "libffi-dev"@,
            "libglib2.0-0"@,
            "libsm6"@,
            "libxext6"@,
            "libxrender-dev"@,
            "libxslt1.1"@,
            "libxslt1-dev"@,
            "libxml2"@,
            "libxml2-dev"@,
            "libreadline-dev"@,
            "libbz2-dev"@,
            "liblzma-dev"@,
            "wget"@,
            "curl"@,
            "cmake"@,
            "make"@,
            "libsqlite3-dev"@,
            "nano"@,
            "git"@,
            "git-lfs"@,
        ],
{
    let mut v = plan4("sudo", "apt", "install", "-y");
    push_owned(&mut v, "build-essential");
    push_owned(&mut v, "libssl-dev");
    push_owned(&mut v, "libffi-dev");
    push_owned(&mut v, "libglib2.0-0");
    push_owned(&mut v, "libsm6");
    push_owned(&mut v, "libxext6");
    push_owned(&mut v, "libxrender-dev");
    push_owned(&mut v, "libxslt1.1");
    push_owned(&mut v, "libxslt1-dev");
    push_owned(&mut v, "libxml2");
    push_owned(&mut v, "libxml2-dev");
    push_owned(&mut v, "libreadline-dev");
    push_owned(&mut v, "libbz2-dev");
    push_owned(&mut v, "liblzma-dev");
    push_owned(&mut v, "wget");
    push_owned(&mut v, "curl");
    push_owned(&mut v, "cmake");
    push_owned(&mut v, "make");
    push_owned(&mut v, "libsqlite3-dev");
    push_owned(&mut v, "nano");
    push_owned(&mut v, "git");
    push_owned(&mut v, "git-lfs");
    v
}

/// The command sequence each component's install step runs.
pub open spec fn spec_install_plan(
    c: Component,
    node_version: Seq<char>,
    arch: Architecture,
    f: FactsModel,
) -> Seq<Seq<Seq<char>>> {
    match c {
        Component::SystemPackages => seq![
            seq!["sudo"@, "apt"@, "update"@],
            seq![
                "sudo"@,
                "apt"@,
                "install"@,
                "-y"@,
                "build-essential"@,
                "libssl-dev"@,
                "libffi-dev"@,
                "libglib2.0-0"@,
                "libsm6"@,
                "libxext6"@,
                "libxrender-dev"@,
                "libxslt1.1"@,
                "libxslt1-dev"@,
                "libxml2"@,
                "libxml2-dev"@,
                "libreadline-dev"@,
                "libbz2-dev"@,
                "liblzma-dev"@,
                "wget"@,
                "curl"@,
                "cmake"@,
                "make"@,
                "libsqlite3-dev"@,
                "nano"@,
                "git"@,
                "git-lfs"@,
            ],
        ],
        Component::GitLfs => seq![seq!["git"@, "lfs"@, "install"@]],
        Component::Uv => seq![
            seq!["sh"@, "-c"@, "curl -LsSf https://astral.sh/uv/install.sh | sh"@],
        ],
        Component::Rustup => seq![
            seq![
                "sh"@,
                "-c"@,
                "curl --proto '=https' --tlsv1.2 -sSf https://sh.rustup.rs | sh -s -- -y"@,
            ],
        ],
        Component::Node => seq![
            seq!["sh"@, "-c"@, spec_nvm_install_script()],
            seq!["bash"@, "-c"@, spec_node_install_script(node_version)],
        ],
        Component::Pnpm => seq![
            seq!["bash"@, "-c"@, spec_pnpm_install_script(f.nvm_script_present)],
        ],
        Component::Pm2 => seq![seq!["pnpm"@, "install"@, "-g"@, "pm2"@]] + (
        if f.pm2_service_present {
            Seq::empty()
        } else {
            spec_pm2_service_plan(f.home)
        }),
        Component::Docker => seq![
            seq!["sudo"@, "apt-get"@, "install"@, "-y"@, "ca-certificates"@, "curl"@],
            seq!["sudo"@, "install"@, "-m"@, "0755"@, "-d"@, "/etc/apt/keyrings"@],
            seq![
                "sudo"@,
                "curl"@,
                "-fsSL"@,
                "https://download.docker.com/linux/ubuntu/gpg"@,
                "-o"@,
                "/etc/apt/keyrings/docker.asc"@,
            ],
            seq!["sudo"@, "chmod"@, "a+r"@, "/etc/apt/keyrings/docker.asc"@],
            seq!["sh"@, "-c"@, spec_docker_repo_cmd(arch)],
            seq!["sudo"@, "apt-get"@, "update"@],
            seq![
                "sudo"@,
                "apt-get"@,
                "install"@,
                "-y"@,
                "docker-ce"@,
                "docker-ce-cli"@,
                "containerd.io"@,
                "docker-buildx-plugin"@,
                "docker-compose-plugin"@,
            ],
            seq!["sudo"@, "groupadd"@, "-f"@, "docker"@],
            seq!["sudo"@, "usermod"@, "-aG"@, "docker"@, f.user],
        ] + (if f.docker_dir_present {
            seq![
                seq!["sudo"@, "chown"@, f.user + ":"@ + f.user, "-R"@, f.home + "/.docker"@],
                seq!["sudo"@, "chmod"@, "g+rwx"@, "-R"@, f.home + "/.docker"@],
            ]
        } else {
            Seq::empty()
        }) + seq![
            seq!["sudo"@, "systemctl"@, "enable"@, "docker.service"@],
            seq!["sudo"@, "systemctl"@, "enable"@, "containerd.service"@],
            seq!["sudo"@, "systemctl"@, "start"@, "docker"@],
        ],
        Component::NvidiaContainerRuntime => seq![
            seq![
                "sh"@,
                "-c"@,
                "curl -fsSL https://nvidia.github.io/libnvidia-container/gpgkey | sudo gpg --dearmor -o /usr/share/keyrings/nvidia-container-toolkit-keyring.gpg"@,
            ],
            seq![
                "sh"@,
                "-c"@,
                "curl -s -L https://nvidia.github.io/libnvidia-container/stable/deb/nvidia-container-toolkit.list | sed 's#deb https://#deb [signed-by=/usr/share/keyrings/nvidia-container-toolkit-keyring.gpg] https://#g' | sudo tee /etc/apt/sources.list.d/nvidia-container-toolkit.list"@,
            ],
            seq!["sudo"@, "apt-get"@, "update"@],
            seq!["sudo"@, "apt-get"@, "install"@, "-y"@, "nvidia-container-toolkit"@],
            seq!["sudo"@, "nvidia-ctk"@, "runtime"@, "configure"@, "--runtime=docker"@],
            seq!["sudo"@, "systemctl"@, "restart"@, "docker"@],
        ],
        Component::CudaToolkitHost => Seq::empty(),
        Component::Zoxide => seq![seq!["cargo"@, "install"@, "zoxide"@]],
        Component::Atuin => seq![
            seq![
                "sh"@,
                "-c"@,
                "curl --proto '=https' --tlsv1.2 -LsSf https://setup.atuin.sh | sh"@,
            ],
        ],
        Component::Ngrok => seq![
            seq![
                "sh"@,
                "-c"@,
                "curl -s https://ngrok-agent.s3.amazonaws.com/ngrok.asc | sudo tee /etc/apt/trusted.gpg.d/ngrok.asc >/dev/null"@,
            ],
            seq![
                "sh"@,
                "-c"@,
                "echo 'deb https://ngrok-agent.s3.amazonaws.com buster main' | sudo tee /etc/apt/sources.list.d/ngrok.list"@,
            ],
            seq!["sudo"@, "apt"@, "update"@],
            seq!["sudo"@, "apt"@, "install"@, "-y"@, "ngrok"@],
        ],
        Component::RmGuard => Seq::empty(),
    }
}

} // verus!
