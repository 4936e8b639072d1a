//! Classification of each component's install state from the machine
//! evidence the caller probed: which binaries answered, what versions
//! they printed, which services and files exist. Classification itself
//! is pure; the probing is the caller's.

use vstd::prelude::*;
use crate::component::Component;
use crate::orchestrate::{InstallState, StateModel};
use crate::text::{spec_find_sub, spec_has_sub};
use crate::envtext::{spec_find_char, spec_lines, spec_trim};

verus! {

/// The machine evidence detection classifies. A version field is `Some`
/// exactly when the binary answered a version query, carrying what it
/// printed.
#[derive(Clone, Debug)]
pub struct Probe {
    pub has_gcc: bool,
    pub has_make: bool,
    pub has_git: bool,
    pub git_lfs_present: bool,
    pub git_lfs_version: Option<String>,
    pub uv_version: Option<String>,
    pub rustup_version: Option<String>,
    pub node_version: Option<String>,
    pub nvm_dir_present: bool,
    pub pnpm_version: Option<String>,
    pub pnpm_binary_present: bool,
    pub pm2_version: Option<String>,
    pub pm2_service_present: bool,
    pub docker_version: Option<String>,
    pub docker_service_active: bool,
    pub in_docker_group: bool,
    pub nvidia_cli_present: bool,
    pub docker_info: Option<String>,
    pub nvidia_smi_present: bool,
    pub gpu_query: Option<String>,
    pub cuda_dir_present: bool,
    pub nvcc_output: Option<String>,
    pub zoxide_version: Option<String>,
    pub atuin_version: Option<String>,
    pub ngrok_version: Option<String>,
    pub bashrc: Option<String>,
}

/// Mathematical image of a [`Probe`].
pub struct ProbeModel {
    pub has_gcc: bool,
    pub has_make: bool,
    pub has_git: bool,
    pub git_lfs_present: bool,
    pub git_lfs_version: Option<Seq<char>>,
    pub uv_version: Option<Seq<char>>,
    pub rustup_version: Option<Seq<char>>,
    pub node_version: Option<Seq<char>>,
    pub nvm_dir_present: bool,
    pub pnpm_version: Option<Seq<char>>,
    pub pnpm_binary_present: bool,
    pub pm2_version: Option<Seq<char>>,
    pub pm2_service_present: bool,
    pub docker_version: Option<Seq<char>>,
    pub docker_service_active: bool,
    pub in_docker_group: bool,
    pub nvidia_cli_present: bool,
    pub docker_info: Option<Seq<char>>,
    pub nvidia_smi_present: bool,
    pub gpu_query: Option<Seq<char>>,
    pub cuda_dir_present: bool,
    pub nvcc_output: Option<Seq<char>>,
    pub zoxide_version: Option<Seq<char>>,
    pub atuin_version: Option<Seq<char>>,
    pub ngrok_version: Option<Seq<char>>,
    pub bashrc: Option<Seq<char>>,
}

impl View for Probe {
    type V = ProbeModel;

    open spec fn view(&self) -> ProbeModel {
        ProbeModel {
            has_gcc: self.has_gcc,
            has_make: self.has_make,
            has_git: self.has_git,
            git_lfs_present: self.git_lfs_present,
            git_lfs_version: self.git_lfs_version.deep_view(),
            uv_version: self.uv_version.deep_view(),
            rustup_version: self.rustup_version.deep_view(),
            node_version: self.node_version.deep_view(),
            nvm_dir_present: self.nvm_dir_present,
            pnpm_version: self.pnpm_version.deep_view(),
            pnpm_binary_present: self.pnpm_binary_present,
            pm2_version: self.pm2_version.deep_view(),
            pm2_service_present: self.pm2_service_present,
            docker_version: self.docker_version.deep_view(),
            docker_service_active: self.docker_service_active,
            in_docker_group: self.in_docker_group,
            nvidia_cli_present: self.nvidia_cli_present,
            docker_info: self.docker_info.deep_view(),
            nvidia_smi_present: self.nvidia_smi_present,
            gpu_query: self.gpu_query.deep_view(),
            cuda_dir_present: self.cuda_dir_present,
            nvcc_output: self.nvcc_output.deep_view(),
            zoxide_version: self.zoxide_version.deep_view(),
            atuin_version: self.atuin_version.deep_view(),
            ngrok_version: self.ngrok_version.deep_view(),
            bashrc: self.bashrc.deep_view(),
        }
    }
}

/// Core build tooling: all of gcc, make and git present is installed;
/// anything missing is a partial state naming what is absent.
pub open spec fn spec_detect_system_packages(has_gcc: bool, has_make: bool, has_git: bool) -> StateModel {
    if has_gcc && has_make && has_git {
        StateModel::Installed(None, seq!["build-essential and core tools present"@])
    } else {
        StateModel::Partial(
            (if !has_gcc {
                seq!["gcc not found"@]
            } else {
                Seq::empty()
            }) + (if !has_make {
                seq!["make not found"@]
            } else {
                Seq::empty()
            }) + (if !has_git {
                seq!["git not found"@]
            } else {
                Seq::empty()
            }),
        )
    }
}

/// A plain versioned tool: installed exactly when it answered a version
/// query.
pub open spec fn spec_detect_versioned(version: Option<Seq<char>>) -> StateModel {
    match version {
        Some(v) => StateModel::Installed(Some(v), Seq::empty()),
        None => StateModel::NotInstalled,
    }
}

pub open spec fn spec_detect_git_lfs(present: bool, version: Option<Seq<char>>) -> StateModel {
    if !present {
        StateModel::NotInstalled
    } else {
        match version {
            Some(v) => StateModel::Installed(Some(v), Seq::empty()),
            None => StateModel::Partial(seq!["git-lfs installed but not initialized"@]),
        }
    }
}

pub open spec fn spec_detect_node(version: Option<Seq<char>>, nvm_dir: bool) -> StateModel {
    match version {
        Some(v) => StateModel::Installed(Some(v), Seq::empty()),
        None => if nvm_dir {
            StateModel::Partial(seq!["NVM installed but node not in PATH (source ~/.nvm/nvm.sh)"@])
        } else {
            StateModel::NotInstalled
        },
    }
}

pub open spec fn spec_detect_pnpm(version: Option<Seq<char>>, binary_present: bool) -> StateModel {
    match version {
        Some(v) => StateModel::Installed(Some(v), Seq::empty()),
        None => if binary_present {
            StateModel::Partial(seq!["pnpm installed but not in PATH"@])
        } else {
            StateModel::NotInstalled
        },
    }
}

pub open spec fn spec_detect_pm2(version: Option<Seq<char>>, service_present: bool) -> StateModel {
    match version {
        Some(v) => if service_present {
            StateModel::Installed(Some(v), seq!["systemd service configured"@])
        } else {
            StateModel::Partial(seq!["pm2 installed but systemd service not configured"@])
        },
        None => StateModel::NotInstalled,
    }
}

pub open spec fn spec_detect_docker(
    version: Option<Seq<char>>,
    service_active: bool,
    in_group: bool,
) -> StateModel {
    match version {
        Some(v) => if service_active && in_group {
            StateModel::Installed(
                Some(v),
                seq![v] + seq!["service active"@] + seq!["user in docker group"@],
            )
        } else {
            StateModel::Partial(
                (if !service_active {
                    seq!["docker service not active"@]
                } else {
                    Seq::empty()
                }) + (if !in_group {
                    seq!["user not in docker group"@]
                } else {
                    Seq::empty()
                }),
            )
        },
        None => StateModel::NotInstalled,
    }
}

pub open spec fn spec_detect_nvidia_runtime(
    cli_present: bool,
    docker_info: Option<Seq<char>>,
) -> StateModel {
    if !cli_present {
        StateModel::NotInstalled
    } else {
        match docker_info {
            Some(info) => if spec_has_sub(info, "nvidia"@) {
                StateModel::Installed(None, seq!["nvidia runtime configured in docker"@])
            } else {
                StateModel::Partial(
                    seq!["nvidia-container-cli present but runtime not configured"@],
                )
            },
            None => StateModel::Partial(
                seq!["nvidia-container-cli present but docker not accessible"@],
            ),
        }
    }
}

pub open spec fn spec_detect_rm_guard(bashrc: Option<Seq<char>>) -> StateModel {
    match bashrc {
        Some(content) => if spec_has_sub(content, "rm() {"@) && spec_has_sub(
            content,
            "PREVIEW_DEPTH"@,
        ) {
            StateModel::Installed(None, seq!["rm guard function present in .bashrc"@])
        } else {
            StateModel::NotInstalled
        },
        None => StateModel::NotInstalled,
    }
}

/// The version the compiler driver's output names: the text after the
/// first `release` of the first line holding one, up to the next comma,
/// trimmed.
pub open spec fn spec_nvcc_release(out: Seq<char>) -> Option<Seq<char>> {
    spec_release_of_lines(spec_lines(out))
}

pub open spec fn spec_release_of_lines(lines: Seq<Seq<char>>) -> Option<Seq<char>>
    decreases lines.len(),
{
    if lines.len() == 0 {
        None
    } else if spec_has_sub(lines[0], "release"@) {
        spec_release_of_line(lines[0])
    } else {
        spec_release_of_lines(lines.drop_first())
    }
}

pub open spec fn spec_release_of_line(line: Seq<char>) -> Option<Seq<char>> {
    let idx = spec_find_sub(line, "release"@, 0);
    if idx < 0 {
        None
    } else {
        let after = line.skip(idx + "release"@.len());
        Some(spec_trim(after.take(spec_find_char(after, ',', 0))))
    }
}

/// The driver and compute-capability fields of the GPU query output:
/// the first two comma-separated fields, trimmed; none when the output
/// has no comma.
pub open spec fn spec_gpu_fields(text: Seq<char>) -> Option<(Seq<char>, Seq<char>)> {
    let t = spec_trim(text);
    let comma = spec_find_char(t, ',', 0);
    if comma == t.len() {
        None
    } else {
        let rest = t.skip(comma + 1);
        Some((spec_trim(t.take(comma)), spec_trim(rest.take(spec_find_char(rest, ',', 0)))))
    }
}

pub open spec fn spec_detect_cuda(
    smi_present: bool,
    gpu_query: Option<Seq<char>>,
    cuda_dir: bool,
    nvcc_output: Option<Seq<char>>,
) -> StateModel {
    if !smi_present {
        StateModel::NotInstalled
    } else {
        let unknown = StateModel::PresentButUnknown(
            seq!["nvidia-smi present but unable to query GPU info"@],
        );
        match gpu_query {
            Some(text) => match spec_gpu_fields(text) {
                Some(fields) => {
                    let driver_line = "driver: "@ + fields.0;
                    let sm_line = "compute capability: "@ + fields.1;
                    if !cuda_dir {
                        StateModel::Partial(
                            seq!["NVIDIA driver present but CUDA toolkit not installed"@]
                                + seq![driver_line] + seq![sm_line],
                        )
                    } else {
                        match nvcc_output {
                            Some(out) => StateModel::Installed(
                                spec_nvcc_release(out),
                                seq![driver_line] + seq![sm_line],
                            ),
                            None => StateModel::PresentButUnknown(
                                seq!["CUDA directory exists but version not parseable"@]
                                    + seq![driver_line] + seq![sm_line],
                            ),
                        }
                    }
                },
                None => unknown,
            },
            None => unknown,
        }
    }
}

/// What detection returns for each component given the probe.
pub open spec fn spec_detect(c: Component, p: ProbeModel) -> StateModel {
    match c {
        Component::SystemPackages => spec_detect_system_packages(p.has_gcc, p.has_make, p.has_git),
        Component::GitLfs => spec_detect_git_lfs(p.git_lfs_present, p.git_lfs_version),
        Component::Uv => spec_detect_versioned(p.uv_version),
        Component::Rustup => spec_detect_versioned(p.rustup_version),
        Component::Node => spec_detect_node(p.node_version, p.nvm_dir_present),
        Component::Pnpm => spec_detect_pnpm(p.pnpm_version, p.pnpm_binary_present),
        Component::Pm2 => spec_detect_pm2(p.pm2_version, p.pm2_service_present),
        Component::Docker => spec_detect_docker(
            p.docker_version,
            p.docker_service_active,
            p.in_docker_group,
        ),
        Component::NvidiaContainerRuntime => spec_detect_nvidia_runtime(
            p.nvidia_cli_present,
            p.docker_info,
        ),
        Component::CudaToolkitHost => spec_detect_cuda(
            p.nvidia_smi_present,
            p.gpu_query,
            p.cuda_dir_present,
            p.nvcc_output,
        ),
        Component::Zoxide => spec_detect_versioned(p.zoxide_version),
        Component::Atuin => spec_detect_versioned(p.atuin_version),
        Component::Ngrok => spec_detect_versioned(p.ngrok_version),
        Component::RmGuard => spec_detect_rm_guard(p.bashrc),
    }
}

/// Classify the core build tooling.
pub fn detect_system_packages(has_gcc: bool, has_make: bool, has_git: bool) -> (r: InstallState)
    ensures
        r@ == spec_detect_system_packages(has_gcc, has_make, has_git),
{
    if has_gcc && has_make && has_git {
        let mut details: Vec<String> = Vec::new();
        details.push("build-essential and core tools present".to_owned());
        proof {
            assert(details.deep_view() =~= seq!["build-essential and core tools present"@]);
        }
        InstallState::Installed { version: None, details }
    } else {
        let mut reasons: Vec<String> = Vec::new();
        if !has_gcc {
            reasons.push("gcc not found".to_owned());
        }
        if !has_make {
            reasons.push("make not found".to_owned());
        }
        if !has_git {
            reasons.push("git not found".to_owned());
        }
        proof {
            assert(reasons.deep_view() =~= (if !has_gcc {
                seq!["gcc not found"@]
            } else {
                Seq::empty()
            }) + (if !has_make {
                seq!["make not found"@]
            } else {
                Seq::empty()
            }) + (if !has_git {
                seq!["git not found"@]
            } else {
                Seq::empty()
            }));
        }
        InstallState::Partial { reasons }
    }
}

fn installed_with_version(version: String) -> (r: InstallState)
    ensures
        r@ == StateModel::Installed(Some(version@), Seq::empty()),
{
    let details: Vec<String> = Vec::new();
    proof {
        assert(details.deep_view() =~= Seq::<Seq<char>>::empty());
    }
    InstallState::Installed { version: Some(version), details }
}

fn partial_with_reason(reason: &str) -> (r: InstallState)
    ensures
        r@ == StateModel::Partial(seq![reason@]),
{
    let mut reasons: Vec<String> = Vec::new();
    reasons.push(reason.to_owned());
    proof {
        assert(reasons.deep_view() =~= seq![reason@]);
    }
    InstallState::Partial { reasons }
}

/// Classify a tool that is installed exactly when it answers a version
/// query.
pub fn detect_versioned(version: Option<String>) -> (r: InstallState)
    ensures
        r@ == spec_detect_versioned(version.deep_view()),
{
    match version {
        Some(v) => installed_with_version(v),
        None => InstallState::NotInstalled,
    }
}

impl Component {
    /// Classify this component's install state from the probed machine
    /// evidence.
    pub fn detect(&self, probe: &Probe) -> (r: InstallState)
        ensures
            r@ == spec_detect(*self, probe@),
    {
        match self {
            Component::SystemPackages => detect_system_packages(
                probe.has_gcc,
                probe.has_make,
                probe.has_git,
            ),
            Component::GitLfs => {
                if !probe.git_lfs_present {
                    InstallState::NotInstalled
                } else {
                    match &probe.git_lfs_version {
                        Some(v) => installed_with_version(v.clone()),
                        None => partial_with_reason("git-lfs installed but not initialized"),
                    }
                }
            },
            Component::Uv => detect_versioned(clone_opt(&probe.uv_version)),
            Component::Rustup => detect_versioned(clone_opt(&probe.rustup_version)),
            Component::Node => {
                match &probe.node_version {
                    Some(v) => installed_with_version(v.clone()),
                    None => if probe.nvm_dir_present {
                        partial_with_reason("NVM installed but node not in PATH (source ~/.nvm/nvm.sh)")
                    } else {
                        InstallState::NotInstalled
                    },
                }
            },
            Component::Pnpm => {
                match &probe.pnpm_version {
                    Some(v) => installed_with_version(v.clone()),
                    None => if probe.pnpm_binary_present {
                        partial_with_reason("pnpm installed but not in PATH")
                    } else {
                        InstallState::NotInstalled
                    },
                }
            },
            Component::Pm2 => {
                match &probe.pm2_version {
                    Some(v) => if probe.pm2_service_present {
                        let mut details: Vec<String> = Vec::new();
                        details.push("systemd service configured".to_owned());
                        proof {
                            assert(details.deep_view() =~= seq!["systemd service configured"@]);
                        }
                        InstallState::Installed { version: Some(v.clone()), details }
                    } else {
                        partial_with_reason("pm2 installed but systemd service not configured")
                    },
                    None => InstallState::NotInstalled,
                }
            },
            Component::Docker => {
                match &probe.docker_version {
                    Some(v) => {
                        if probe.docker_service_active && probe.in_docker_group {
                            let mut details: Vec<String> = Vec::new();
                            details.push(v.clone());
                            details.push("service active".to_owned());
                            details.push("user in docker group".to_owned());
                            proof {
                                assert(details.deep_view() =~= seq![v@] + seq!["service active"@]
                                    + seq!["user in docker group"@]);
                            }
                            InstallState::Installed { version: Some(v.clone()), details }
                        } else {
                            let mut reasons: Vec<String> = Vec::new();
                            if !probe.docker_service_active {
                                reasons.push("docker service not active".to_owned());
                            }
                            if !probe.in_docker_group {
                                reasons.push("user not in docker group".to_owned());
                            }
                            proof {
                                assert(reasons.deep_view() =~= (if !probe.docker_service_active {
                                    seq!["docker service not active"@]
                                } else {
                                    Seq::empty()
                                }) + (if !probe.in_docker_group {
                                    seq!["user not in docker group"@]
                                } else {
                                    Seq::empty()
                                }));
                            }
                            InstallState::Partial { reasons }
                        }
                    },
                    None => InstallState::NotInstalled,
                }
            },
            Component::NvidiaContainerRuntime => {
                if !probe.nvidia_cli_present {
                    InstallState::NotInstalled
                } else {
                    match &probe.docker_info {
                        Some(info) => {
                            if crate::text::contains_sub(info.as_str(), "nvidia") {
                                let mut details: Vec<String> = Vec::new();
                                details.push("nvidia runtime configured in docker".to_owned());
                                proof {
                                    assert(details.deep_view()
                                        =~= seq!["nvidia runtime configured in docker"@]);
                                }
                                InstallState::Installed { version: None, details }
                            } else {
                                partial_with_reason(
                                    "nvidia-container-cli present but runtime not configured",
                                )
                            }
                        },
                        None => partial_with_reason(
                            "nvidia-container-cli present but docker not accessible",
                        ),
                    }
                }
            },
            Component::CudaToolkitHost => detect_cuda_toolkit_host(
                probe.nvidia_smi_present,
                &probe.gpu_query,
                probe.cuda_dir_present,
                &probe.nvcc_output,
            ),
            Component::Zoxide => detect_versioned(clone_opt(&probe.zoxide_version)),
            Component::Atuin => detect_versioned(clone_opt(&probe.atuin_version)),
            Component::Ngrok => detect_versioned(clone_opt(&probe.ngrok_version)),
            Component::RmGuard => {
                match &probe.bashrc {
                    Some(content) => {
                        if crate::text::contains_sub(content.as_str(), "rm() {")
                            && crate::text::contains_sub(content.as_str(), "PREVIEW_DEPTH") {
                            let mut details: Vec<String> = Vec::new();
                            details.push("rm guard function present in .bashrc".to_owned());
                            proof {
                                assert(details.deep_view()
                                    =~= seq!["rm guard function present in .bashrc"@]);
                            }
                            InstallState::Installed { version: None, details }
                        } else {
                            InstallState::NotInstalled
                        }
                    },
                    None => InstallState::NotInstalled,
                }
            },
        }
    }
}

fn clone_opt(v: &Option<String>) -> (r: Option<String>)
    ensures
        r.deep_view() == v.deep_view(),
{
    match v {
        Some(s) => Some(s.clone()),
        None => None,
    }
}


/// The version named by the compiler driver's output: the text after
/// the first `release` of the first line holding one, up to the next
/// comma.
#[verifier::loop_isolation(false)]
pub fn parse_nvcc_release(out: &str) -> (r: Option<String>)
    ensures
        r.deep_view() == spec_nvcc_release(out@),
{
    let lines = crate::envtext::split_lines(out);
    let ghost lv = lines.deep_view();
    proof {
        assert(lv.skip(0) =~= lv);
    }
    let mut i: usize = 0;
    while i < lines.len()
        invariant
            i <= lv.len(),
            lv == lines.deep_view(),
            spec_release_of_lines(lv) == spec_release_of_lines(lv.skip(i as int)),
        decreases lv.len() - i,
    {
        proof {
            assert(lv.skip(i as int)[0] == lv[i as int]);
            assert(lv.skip(i as int).drop_first() =~= lv.skip(i + 1));
            assert(lv[i as int] == lines@[i as int]@);
        }
        let line = &lines[i];
        if crate::text::contains_sub(line.as_str(), "release") {
            let ghost lseq = line@;
            let idx = match crate::text::find_sub(line.as_str(), "release") {
                Some(idx) => idx,
                None => {
                    proof {
                        crate::text::lemma_find_sub_bounds(lseq, "release"@, 0);
                        let w = choose|w: int|
                            0 <= w <= lseq.len() - "release"@.len() && #[trigger] lseq.subrange(
                                w,
                                w + "release"@.len(),
                            ) == "release"@;
                        assert(false);
                    }
                    return None;
                },
            };
            proof {
                crate::text::lemma_find_sub_bounds(lseq, "release"@, 0);
            }
            let relen = "release".unicode_len();
            let n = line.as_str().unicode_len();
            let after = line.as_str().substring_char(idx + relen, n);
            let ghost aseq = lseq.skip(idx + "release"@.len());
            proof {
                assert(after@ =~= aseq);
            }
            let an = after.unicode_len();
            let mut c: usize = 0;
            while c < an && after.get_char(c) != ','
                invariant
                    c <= an,
                    an == aseq.len(),
                    after@ == aseq,
                    spec_find_char(aseq, ',', 0) == spec_find_char(aseq, ',', c as int),
                decreases an - c,
            {
                c = c + 1;
            }
            let piece = after.substring_char(0, c);
            proof {
                assert(piece@ =~= aseq.take(c as int));
            }
            let version = crate::envtext::trim(piece);
            return Some(version);
        }
        i = i + 1;
    }
    proof {
        assert(lv.skip(lv.len() as int) =~= Seq::<Seq<char>>::empty());
    }
    None
}

/// The first two comma-separated fields of the GPU query output, both
/// trimmed.
#[verifier::loop_isolation(false)]
pub fn gpu_fields(text: &str) -> (r: Option<(String, String)>)
    ensures
        match r {
            Some(fields) => spec_gpu_fields(text@) == Some((fields.0@, fields.1@)),
            None => spec_gpu_fields(text@) is None,
        },
{
    let t = crate::envtext::trim(text);
    let ghost tv = t@;
    let tn = t.as_str().unicode_len();
    let mut comma: usize = 0;
    while comma < tn && t.as_str().get_char(comma) != ','
        invariant
            comma <= tn,
            tn == tv.len(),
            t@ == tv,
            spec_find_char(tv, ',', 0) == spec_find_char(tv, ',', comma as int),
        decreases tn - comma,
    {
        comma = comma + 1;
    }
    if comma == tn {
        return None;
    }
    let before = t.as_str().substring_char(0, comma);
    let rest = t.as_str().substring_char(comma + 1, tn);
    let ghost rv = tv.skip(comma + 1);
    proof {
        assert(before@ =~= tv.take(comma as int));
        assert(rest@ =~= rv);
    }
    let rn = rest.unicode_len();
    let mut c2: usize = 0;
    while c2 < rn && rest.get_char(c2) != ','
        invariant
            c2 <= rn,
            rn == rv.len(),
            rest@ == rv,
            spec_find_char(rv, ',', 0) == spec_find_char(rv, ',', c2 as int),
        decreases rn - c2,
    {
        c2 = c2 + 1;
    }
    let second = rest.substring_char(0, c2);
    proof {
        assert(second@ =~= rv.take(c2 as int));
    }
    let driver = crate::envtext::trim(before);
    let sm = crate::envtext::trim(second);
    Some((driver, sm))
}

/// Classify the CUDA toolkit's state on the host from the probed GPU
/// and toolkit evidence.
pub fn detect_cuda_toolkit_host(
    smi_present: bool,
    gpu_query: &Option<String>,
    cuda_dir: bool,
    nvcc_output: &Option<String>,
) -> (r: InstallState)
    ensures
        r@ == spec_detect_cuda(
            smi_present,
            gpu_query.deep_view(),
            cuda_dir,
            nvcc_output.deep_view(),
        ),
{
    if !smi_present {
        return InstallState::NotInstalled;
    }
    let query = match gpu_query {
        Some(text) => text,
        None => {
            let mut reasons: Vec<String> = Vec::new();
            reasons.push("nvidia-smi present but unable to query GPU info".to_owned());
            proof {
                assert(reasons.deep_view()
                    =~= seq!["nvidia-smi present but unable to query GPU info"@]);
            }
            return InstallState::PresentButUnknown { reasons };
        },
    };
    let fields = match gpu_fields(query.as_str()) {
        Some(fields) => fields,
        None => {
            let mut reasons: Vec<String> = Vec::new();
            reasons.push("nvidia-smi present but unable to query GPU info".to_owned());
            proof {
                assert(reasons.deep_view()
                    =~= seq!["nvidia-smi present but unable to query GPU info"@]);
            }
            return InstallState::PresentButUnknown { reasons };
        },
    };
    let mut driver_line = String::new();
    driver_line.append("driver: ");
    driver_line.append(fields.0.as_str());
    let mut sm_line = String::new();
    sm_line.append("compute capability: ");
    sm_line.append(fields.1.as_str());
    if !cuda_dir {
        let mut reasons: Vec<String> = Vec::new();
        reasons.push("NVIDIA driver present but CUDA toolkit not installed".to_owned());
        reasons.push(driver_line);
        reasons.push(sm_line);
        proof {
            assert(reasons.deep_view()
                =~= seq!["NVIDIA driver present but CUDA toolkit not installed"@] + seq!["driver: "@
                + fields.0@] + seq!["compute capability: "@ + fields.1@]);
        }
        return InstallState::Partial { reasons };
    }
    match nvcc_output {
        Some(out) => {
            let version = parse_nvcc_release(out.as_str());
            let mut details: Vec<String> = Vec::new();
            details.push(driver_line);
            details.push(sm_line);
            proof {
                assert(details.deep_view() =~= seq!["driver: "@ + fields.0@] + seq![
                    "compute capability: "@ + fields.1@,
                ]);
            }
            InstallState::Installed { version, details }
        },
        None => {
            let mut reasons: Vec<String> = Vec::new();
            reasons.push("CUDA directory exists but version not parseable".to_owned());
            reasons.push(driver_line);
            reasons.push(sm_line);
            proof {
                assert(reasons.deep_view() =~= seq!["CUDA directory exists but version not parseable"@]
                    + seq!["driver: "@ + fields.0@] + seq!["compute capability: "@ + fields.1@]);
            }
            InstallState::PresentButUnknown { reasons }
        },
    }
}

/// The log lines of the validate-only CUDA install step: it reports the
/// detected state and never installs anything.
pub open spec fn spec_cuda_host_messages(st: StateModel) -> Seq<Seq<char>> {
    match st {
        StateModel::Installed(version, details) => seq![
            match version {
                Some(v) => "CUDA toolkit already installed: "@ + v,
                None => "CUDA toolkit already installed"@,
            },
        ] + details,
        StateModel::PresentButUnknown(reasons) => seq![
            "CUDA installation detected but layout is non-standard (possibly OEM-provisioned)"@,
        ] + reasons + seq![
            "Refusing to auto-install to protect existing setup"@,
            "Use --install-cuda-toolkit with explicit confirmation if you want to proceed"@,
        ],
        StateModel::Partial(reasons) => seq!["Partial CUDA installation detected:"@] + reasons
            + seq![
            "This component validates only by default"@,
            "Use --install-cuda-toolkit to actually install CUDA toolkit"@,
        ],
        StateModel::NotInstalled => seq![
            "No CUDA installation detected"@,
            "This component validates only by default"@,
            "Use --install-cuda-toolkit to actually install CUDA toolkit"@,
        ],
    }
}

/// The CUDA host component validates only: given the detected state it
/// returns what is reported, and orders no commands.
#[verifier::loop_isolation(false)]
pub fn install_cuda_toolkit_host(state: &InstallState) -> (r: Vec<String>)
    ensures
        r.deep_view() == spec_cuda_host_messages(state@),
{
    let mut out: Vec<String> = Vec::new();
    match state {
        InstallState::Installed { version, details } => {
            match version {
                Some(v) => {
                    let mut line = String::new();
                    line.append("CUDA toolkit already installed: ");
                    line.append(v.as_str());
                    out.push(line);
                },
                None => {
                    out.push("CUDA toolkit already installed".to_owned());
                },
            }
            let ghost head = out.deep_view();
            let mut i: usize = 0;
            while i < details.len()
                invariant
                    i <= details@.len(),
                    out.deep_view() =~= head + details.deep_view().take(i as int),
                decreases details@.len() - i,
            {
                out.push(details[i].clone());
                proof {
                    assert(details.deep_view().take(i + 1) =~= details.deep_view().take(
                        i as int,
                    ).push(details@[i as int]@));
                    assert(out.deep_view() =~= (head + details.deep_view().take(i as int)).push(
                        details@[i as int]@,
                    ));
                }
                i = i + 1;
            }
            proof {
                assert(details.deep_view().take(details@.len() as int) =~= details.deep_view());
                assert(out.deep_view() =~= spec_cuda_host_messages(state@));
            }
        },
        InstallState::PresentButUnknown { reasons } => {
            out.push(
                "CUDA installation detected but layout is non-standard (possibly OEM-provisioned)".to_owned(),
            );
            let ghost head = out.deep_view();
            let mut i: usize = 0;
            while i < reasons.len()
                invariant
                    i <= reasons@.len(),
                    out.deep_view() =~= head + reasons.deep_view().take(i as int),
                decreases reasons@.len() - i,
            {
                out.push(reasons[i].clone());
                proof {
                    assert(reasons.deep_view().take(i + 1) =~= reasons.deep_view().take(
                        i as int,
                    ).push(reasons@[i as int]@));
                    assert(out.deep_view() =~= (head + reasons.deep_view().take(i as int)).push(
                        reasons@[i as int]@,
                    ));
                }
                i = i + 1;
            }
            let ghost mid = out.deep_view();
            out.push("Refusing to auto-install to protect existing setup".to_owned());
            proof {
                assert(out.deep_view() =~= mid.push(
                    "Refusing to auto-install to protect existing setup"@,
                ));
            }
            let ghost mid2 = out.deep_view();
            out.push(
                "Use --install-cuda-toolkit with explicit confirmation if you want to proceed".to_owned(),
            );
            proof {
                assert(out.deep_view() =~= mid2.push(
                    "Use --install-cuda-toolkit with explicit confirmation if you want to proceed"@,
                ));
                assert(reasons.deep_view().take(reasons@.len() as int) =~= reasons.deep_view());
                assert(out.deep_view() =~= spec_cuda_host_messages(state@));
            }
        },
        InstallState::Partial { reasons } => {
            out.push("Partial CUDA installation detected:".to_owned());
            let ghost head = out.deep_view();
            let mut i: usize = 0;
            while i < reasons.len()
                invariant
                    i <= reasons@.len(),
                    out.deep_view() =~= head + reasons.deep_view().take(i as int),
                decreases reasons@.len() - i,
            {
                out.push(reasons[i].clone());
                proof {
                    assert(reasons.deep_view().take(i + 1) =~= reasons.deep_view().take(
                        i as int,
                    ).push(reasons@[i as int]@));
                    assert(out.deep_view() =~= (head + reasons.deep_view().take(i as int)).push(
                        reasons@[i as int]@,
                    ));
                }
                i = i + 1;
            }
            let ghost mid = out.deep_view();
            out.push("This component validates only by default".to_owned());
            proof {
                assert(out.deep_view() =~= mid.push("This component validates only by default"@));
            }
            let ghost mid2 = out.deep_view();
            out.push("Use --install-cuda-toolkit to actually install CUDA toolkit".to_owned());
            proof {
                assert(out.deep_view() =~= mid2.push(
                    "Use --install-cuda-toolkit to actually install CUDA toolkit"@,
                ));
                assert(reasons.deep_view().take(reasons@.len() as int) =~= reasons.deep_view());
                assert(out.deep_view() =~= spec_cuda_host_messages(state@));
            }
        },
        InstallState::NotInstalled => {
            out.push("No CUDA installation detected".to_owned());
            out.push("This component validates only by default".to_owned());
            out.push("Use --install-cuda-toolkit to actually install CUDA toolkit".to_owned());
            proof {
                assert(out.deep_view() =~= spec_cuda_host_messages(state@));
            }
        },
    }
    out
}

} // verus!
