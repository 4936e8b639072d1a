//! The fixed catalog of installable system components, their static
//! dependency edges, and dependency resolution: validation of a requested
//! set and a depth-first topological ordering that places every
//! dependency before its dependent.

use vstd::prelude::*;

verus! {

/// One installable unit of system tooling. The set is closed: string
/// identifiers exist only for configuration and command line matching.
#[derive(Clone, Copy, Debug, PartialEq, Eq, Structural)]
pub enum Component {
    SystemPackages,
    GitLfs,
    Uv,
    Rustup,
    Node,
    Pnpm,
    Pm2,
    Docker,
    NvidiaContainerRuntime,
    CudaToolkitHost,
    Zoxide,
    Atuin,
    Ngrok,
    RmGuard,
}

/// Why component selection or resolution failed.
#[derive(Clone, Debug)]
pub enum SetupError {
    /// The requested list is empty.
    NoComponents,
    /// The requested list names one component twice.
    DuplicateComponent { name: String },
    /// Dependency resolution re-entered a component being expanded.
    CircularDependency { name: String },
    /// A string identifier matches no component of the catalog.
    UnknownComponent { name: String },
}

/// Mathematical image of a [`SetupError`].
pub enum SetupErrorModel {
    NoComponents,
    DuplicateComponent(Seq<char>),
    CircularDependency(Seq<char>),
    UnknownComponent(Seq<char>),
}

impl View for SetupError {
    type V = SetupErrorModel;

    open spec fn view(&self) -> SetupErrorModel {
        match self {
            SetupError::NoComponents => SetupErrorModel::NoComponents,
            SetupError::DuplicateComponent { name } => SetupErrorModel::DuplicateComponent(name@),
            SetupError::CircularDependency { name } => SetupErrorModel::CircularDependency(name@),
            SetupError::UnknownComponent { name } => SetupErrorModel::UnknownComponent(name@),
        }
    }
}

impl SetupError {
    /// The error's text, as setup reports it.
    pub fn message(&self) -> (r: String)
        ensures
            match self {
                SetupError::NoComponents => r@ == "No components specified"@,
                SetupError::DuplicateComponent { name } => r@ == "Duplicate component: "@ + name@,
                SetupError::CircularDependency { name } => r@
                    == "Circular dependency detected involving "@ + name@,
                SetupError::UnknownComponent { name } => r@ == "Unknown component: "@ + name@,
            },
    {
        match self {
            SetupError::NoComponents => "No components specified".to_owned(),
            SetupError::DuplicateComponent { name } => {
                let mut out = String::new();
                out.append("Duplicate component: ");
                out.append(name.as_str());
                out
            },
            SetupError::CircularDependency { name } => {
                let mut out = String::new();
                out.append("Circular dependency detected involving ");
                out.append(name.as_str());
                out
            },
            SetupError::UnknownComponent { name } => {
                let mut out = String::new();
                out.append("Unknown component: ");
                out.append(name.as_str());
                out
            },
        }
    }
}

/// The whole catalog, in its canonical order.
pub open spec fn spec_all() -> Seq<Component> {
    seq![
        Component::SystemPackages,
        Component::GitLfs,
        Component::Uv,
        Component::Rustup,
        Component::Node,
        Component::Pnpm,
        Component::Pm2,
        Component::Docker,
        Component::NvidiaContainerRuntime,
        Component::CudaToolkitHost,
        Component::Zoxide,
        Component::Atuin,
        Component::Ngrok,
        Component::RmGuard,
    ]
}

/// The string identifier of a component.
pub open spec fn spec_name(c: Component) -> Seq<char> {
    match c {
        Component::SystemPackages => "system_packages"@,
        Component::GitLfs => "git_lfs"@,
        Component::Uv => "uv"@,
        Component::Rustup => "rustup"@,
        Component::Node => "node"@,
        Component::Pnpm => "pnpm"@,
        Component::Pm2 => "pm2"@,
        Component::Docker => "docker"@,
        Component::NvidiaContainerRuntime => "nvidia_container_runtime"@,
        Component::CudaToolkitHost => "cuda_toolkit_host"@,
        Component::Zoxide => "zoxide"@,
        Component::Atuin => "atuin"@,
        Component::Ngrok => "ngrok"@,
        Component::RmGuard => "rm_guard"@,
    }
}

/// The component a string identifier names, if any.
pub open spec fn spec_component_of(s: Seq<char>) -> Option<Component> {
    if s == "system_packages"@ {
        Some(Component::SystemPackages)
    } else if s == "git_lfs"@ {
        Some(Component::GitLfs)
    } else if s == "uv"@ {
        Some(Component::Uv)
    } else if s == "rustup"@ {
        Some(Component::Rustup)
    } else if s == "node"@ {
        Some(Component::Node)
    } else if s == "pnpm"@ {
        Some(Component::Pnpm)
    } else if s == "pm2"@ {
        Some(Component::Pm2)
    } else if s == "docker"@ {
        Some(Component::Docker)
    } else if s == "nvidia_container_runtime"@ {
        Some(Component::NvidiaContainerRuntime)
    } else if s == "cuda_toolkit_host"@ {
        Some(Component::CudaToolkitHost)
    } else if s == "zoxide"@ {
        Some(Component::Zoxide)
    } else if s == "atuin"@ {
        Some(Component::Atuin)
    } else if s == "ngrok"@ {
        Some(Component::Ngrok)
    } else if s == "rm_guard"@ {
        Some(Component::RmGuard)
    } else {
        None
    }
}

/// The static dependency edges of the catalog.
pub open spec fn spec_dependencies(c: Component) -> Seq<Component> {
    match c {
        Component::Pm2 => seq![Component::Node, Component::Pnpm],
        Component::Docker => seq![Component::SystemPackages],
        Component::NvidiaContainerRuntime => seq![Component::Docker],
        Component::Pnpm => seq![Component::Node],
        Component::GitLfs => seq![Component::SystemPackages],
        _ => Seq::empty(),
    }
}

/// A bound on dependency chains: every dependency has a smaller rank, so
/// the static dependency graph is acyclic.
pub open spec fn rank(c: Component) -> nat {
    match c {
        Component::Pm2 => 2,
        Component::NvidiaContainerRuntime => 2,
        Component::Pnpm => 1,
        Component::Docker => 1,
        Component::GitLfs => 1,
        _ => 0,
    }
}

pub proof fn lemma_dependency_rank(c: Component)
    ensures
        forall|i: int|
            0 <= i < spec_dependencies(c).len() ==> rank(#[trigger] spec_dependencies(c)[i])
                < rank(c),
{
}

/// Depth-first placement of one component: already-placed components
/// stay put, the component's dependency chain is placed first, then the
/// component itself.
pub open spec fn spec_visit(c: Component, acc: Seq<Component>) -> Seq<Component>
    decreases rank(c),
{
    if acc.contains(c) {
        acc
    } else {
        let expanded = match c {
            Component::Pm2 => spec_visit(Component::Pnpm, spec_visit(Component::Node, acc)),
            Component::Docker => spec_visit(Component::SystemPackages, acc),
            Component::NvidiaContainerRuntime => spec_visit(Component::Docker, acc),
            Component::Pnpm => spec_visit(Component::Node, acc),
            Component::GitLfs => spec_visit(Component::SystemPackages, acc),
            _ => acc,
        };
        expanded.push(c)
    }
}

/// Placement of a list of components, left to right.
pub open spec fn spec_visit_list(cs: Seq<Component>, acc: Seq<Component>) -> Seq<Component>
    decreases cs.len(),
{
    if cs.len() == 0 {
        acc
    } else {
        spec_visit_list(cs.drop_first(), spec_visit(cs[0], acc))
    }
}

/// The resolved install order for a requested list.
pub open spec fn spec_resolve(cs: Seq<Component>) -> Seq<Component> {
    spec_visit_list(cs, Seq::empty())
}

pub proof fn lemma_visit_unfold(c: Component, acc: Seq<Component>)
    ensures
        spec_visit(c, acc) == if acc.contains(c) {
            acc
        } else {
            spec_visit_list(spec_dependencies(c), acc).push(c)
        },
{
    if !acc.contains(c) {
        match c {
            Component::Pm2 => {
                let deps = spec_dependencies(c);
                let a1 = spec_visit(Component::Node, acc);
                let a2 = spec_visit(Component::Pnpm, a1);
                assert(deps[0] == Component::Node);
                assert(deps.drop_first() =~= seq![Component::Pnpm]);
                assert(spec_visit_list(deps, acc) == spec_visit_list(seq![Component::Pnpm], a1));
                assert(seq![Component::Pnpm].drop_first() =~= Seq::<Component>::empty());
                assert(spec_visit_list(seq![Component::Pnpm], a1) == spec_visit_list(
                    Seq::<Component>::empty(),
                    a2,
                ));
                assert(spec_visit_list(Seq::<Component>::empty(), a2) == a2);
            },
            Component::Docker | Component::NvidiaContainerRuntime | Component::Pnpm
                | Component::GitLfs => {
                let deps = spec_dependencies(c);
                let a1 = spec_visit(deps[0], acc);
                assert(deps.drop_first() =~= Seq::<Component>::empty());
                assert(spec_visit_list(deps, acc) == spec_visit_list(
                    Seq::<Component>::empty(),
                    a1,
                ));
                assert(spec_visit_list(Seq::<Component>::empty(), a1) == a1);
            },
            _ => {
                assert(spec_dependencies(c) =~= Seq::<Component>::empty());
                assert(spec_visit_list(Seq::<Component>::empty(), acc) == acc);
            },
        }
    }
}

pub proof fn lemma_visit_list_push(cs: Seq<Component>, x: Component, acc: Seq<Component>)
    ensures
        spec_visit_list(cs.push(x), acc) == spec_visit(x, spec_visit_list(cs, acc)),
    decreases cs.len(),
{
    if cs.len() == 0 {
        assert(cs.push(x)[0] == x);
        assert(cs.push(x).drop_first() =~= Seq::<Component>::empty());
        assert(spec_visit_list(cs.push(x), acc) == spec_visit_list(
            Seq::<Component>::empty(),
            spec_visit(x, acc),
        ));
        assert(spec_visit_list(Seq::<Component>::empty(), spec_visit(x, acc)) == spec_visit(
            x,
            acc,
        ));
        assert(spec_visit_list(cs, acc) == acc);
    } else {
        assert(cs.push(x)[0] == cs[0]);
        assert(cs.push(x).drop_first() =~= cs.drop_first().push(x));
        lemma_visit_list_push(cs.drop_first(), x, spec_visit(cs[0], acc));
        assert(spec_visit_list(cs, acc) == spec_visit_list(cs.drop_first(), spec_visit(cs[0], acc)));
    }
}

/// Whether a component list holds a component.
pub fn vec_contains_component(v: &Vec<Component>, c: Component) -> (r: bool)
    ensures
        r == v@.contains(c),
{
    let mut i: usize = 0;
    while i < v.len()
        invariant
            i <= v.len(),
            forall|j: int| 0 <= j < i ==> v@[j] != c,
        decreases v.len() - i,
    {
        if v[i] == c {
            return true;
        }
        i = i + 1;
    }
    false
}

impl Component {
    /// Every component of the catalog, in its canonical order.
    pub fn all() -> (r: Vec<Component>)
        ensures
            r@ =~= spec_all(),
    {
        let mut v: Vec<Component> = Vec::new();
        v.push(Component::SystemPackages);
        v.push(Component::GitLfs);
        v.push(Component::Uv);
        v.push(Component::Rustup);
        v.push(Component::Node);
        v.push(Component::Pnpm);
        v.push(Component::Pm2);
        v.push(Component::Docker);
        v.push(Component::NvidiaContainerRuntime);
        v.push(Component::CudaToolkitHost);
        v.push(Component::Zoxide);
        v.push(Component::Atuin);
        v.push(Component::Ngrok);
        v.push(Component::RmGuard);
        v
    }

    /// The component's string identifier.
    pub fn name(&self) -> (r: &'static str)
        ensures
            r@ == spec_name(*self),
    {
        match self {
            Component::SystemPackages => "system_packages",
            Component::GitLfs => "git_lfs",
            Component::Uv => "uv",
            Component::Rustup => "rustup",
            Component::Node => "node",
            Component::Pnpm => "pnpm",
            Component::Pm2 => "pm2",
            Component::Docker => "docker",
            Component::NvidiaContainerRuntime => "nvidia_container_runtime",
            Component::CudaToolkitHost => "cuda_toolkit_host",
            Component::Zoxide => "zoxide",
            Component::Atuin => "atuin",
            Component::Ngrok => "ngrok",
            Component::RmGuard => "rm_guard",
        }
    }

    /// Parse a component from its string identifier; `Ok` exactly for the
    /// fourteen identifiers of the catalog.
    pub fn from_str(s: &str) -> (r: Result<Component, SetupError>)
        ensures
            match r {
                Ok(c) => spec_component_of(s@) == Some(c),
                Err(e) => spec_component_of(s@) is None && e@ == SetupErrorModel::UnknownComponent(
                    s@,
                ),
            },
    {
        if crate::text::str_eq(s, "system_packages") {
            Ok(Component::SystemPackages)
        } else if crate::text::str_eq(s, "git_lfs") {
            Ok(Component::GitLfs)
        } else if crate::text::str_eq(s, "uv") {
            Ok(Component::Uv)
        } else if crate::text::str_eq(s, "rustup") {
            Ok(Component::Rustup)
        } else if crate::text::str_eq(s, "node") {
            Ok(Component::Node)
        } else if crate::text::str_eq(s, "pnpm") {
            Ok(Component::Pnpm)
        } else if crate::text::str_eq(s, "pm2") {
            Ok(Component::Pm2)
        } else if crate::text::str_eq(s, "docker") {
            Ok(Component::Docker)
        } else if crate::text::str_eq(s, "nvidia_container_runtime") {
            Ok(Component::NvidiaContainerRuntime)
        } else if crate::text::str_eq(s, "cuda_toolkit_host") {
            Ok(Component::CudaToolkitHost)
        } else if crate::text::str_eq(s, "zoxide") {
            Ok(Component::Zoxide)
        } else if crate::text::str_eq(s, "atuin") {
            Ok(Component::Atuin)
        } else if crate::text::str_eq(s, "ngrok") {
            Ok(Component::Ngrok)
        } else if crate::text::str_eq(s, "rm_guard") {
            Ok(Component::RmGuard)
        } else {
            Err(SetupError::UnknownComponent { name: s.to_owned() })
        }
    }

    /// The component's static dependencies.
    pub fn dependencies(&self) -> (r: Vec<Component>)
        ensures
            r@ =~= spec_dependencies(*self),
    {
        let mut v: Vec<Component> = Vec::new();
        match self {
            Component::Pm2 => {
                v.push(Component::Node);
                v.push(Component::Pnpm);
            },
            Component::Docker => {
                v.push(Component::SystemPackages);
            },
            Component::NvidiaContainerRuntime => {
                v.push(Component::Docker);
            },
            Component::Pnpm => {
                v.push(Component::Node);
            },
            Component::GitLfs => {
                v.push(Component::SystemPackages);
            },
            _ => {},
        }
        v
    }
}

/// The first component of the list that repeats an earlier one, scanning
/// left to right from position `j`.
pub open spec fn spec_first_dup_from(cs: Seq<Component>, j: int) -> Option<Component>
    decreases cs.len() - j,
{
    if j < 0 || j >= cs.len() {
        None
    } else if cs.take(j).contains(cs[j]) {
        Some(cs[j])
    } else {
        spec_first_dup_from(cs, j + 1)
    }
}

/// Validate a requested component list: it must be non-empty and free of
/// duplicates. `Ok` exactly then; the duplicate error names the first
/// repeated component.
#[verifier::loop_isolation(false)]
pub fn validate_components(components: &Vec<Component>) -> (r: Result<(), SetupError>)
    ensures
        match r {
            Ok(_) => components@.len() > 0 && spec_first_dup_from(components@, 0) is None,
            Err(e) => match e@ {
                SetupErrorModel::NoComponents => components@.len() == 0,
                SetupErrorModel::DuplicateComponent(n) => exists|c: Component|
                    spec_first_dup_from(components@, 0) == Some(c) && n == spec_name(c),
                _ => false,
            },
        },
{
    if components.len() == 0 {
        return Err(SetupError::NoComponents);
    }
    let mut j: usize = 1;
    proof {
        assert(components@.take(0).contains(components@[0]) == false);
        assert(spec_first_dup_from(components@, 0) == spec_first_dup_from(components@, 1));
    }
    while j < components.len()
        invariant
            1 <= j <= components@.len(),
            spec_first_dup_from(components@, 0) == spec_first_dup_from(components@, j as int),
        decreases components@.len() - j,
    {
        let mut i: usize = 0;
        while i < j
            invariant
                0 <= i <= j < components@.len(),
                forall|k: int| 0 <= k < i ==> components@[k] != components@[j as int],
            decreases j - i,
        {
            if components[i] == components[j] {
                proof {
                    assert(components@.take(j as int)[i as int] == components@[j as int]);
                    assert(components@.take(j as int).contains(components@[j as int]));
                }
                proof {
                    assert(spec_first_dup_from(components@, j as int) == Some(
                        components@[j as int],
                    ));
                }
                return Err(SetupError::DuplicateComponent { name: components[j].name().to_owned() });
            }
            i = i + 1;
        }
        proof {
            assert forall|k: int|
                0 <= k < j implies components@.take(j as int)[k] != components@[j as int] by {}
            assert(!components@.take(j as int).contains(components@[j as int]));
        }
        proof {
            assert(spec_first_dup_from(components@, j as int) == spec_first_dup_from(
                components@,
                j + 1,
            ));
        }
        j = j + 1;
    }
    proof {
        assert(spec_first_dup_from(components@, components@.len() as int) is None);
    }
    Ok(())
}

fn visit(component: Component, result: &mut Vec<Component>, visiting: &mut Vec<Component>) -> (r:
    Result<(), SetupError>)
    requires
        forall|x: Component| old(visiting)@.contains(x) ==> rank(x) > rank(component),
    ensures
        r is Ok,
        final(result)@ == spec_visit(component, old(result)@),
        final(visiting)@ == old(visiting)@,
    decreases rank(component),
{
    let ghost acc0 = result@;
    if vec_contains_component(result, component) {
        return Ok(());
    }
    if vec_contains_component(visiting, component) {
        // Unreachable: everything on the in-progress stack ranks strictly
        // above this component, so the component cannot be on it.
        proof {
            assert(rank(component) > rank(component));
        }
        return Err(SetupError::CircularDependency { name: component.name().to_owned() });
    }
    visiting.push(component);
    let deps = component.dependencies();
    proof {
        lemma_dependency_rank(component);
    }
    let mut k: usize = 0;
    while k < deps.len()
        invariant
            k <= deps@.len(),
            deps@ == spec_dependencies(component),
            forall|x: Component| old(visiting)@.contains(x) ==> rank(x) > rank(component),
            visiting@ == old(visiting)@.push(component),
            result@ == spec_visit_list(deps@.take(k as int), acc0),
        decreases deps@.len() - k,
    {
        proof {
            assert(rank(deps@[k as int]) < rank(component));
            assert forall|x: Component| visiting@.contains(x) implies rank(x) > rank(
                deps@[k as int],
            ) by {
                if x != component {
                    let w = choose|w: int| 0 <= w < visiting@.len() && visiting@[w] == x;
                    assert(old(visiting)@[w] == x);
                    assert(old(visiting)@.contains(x));
                }
            }
        }
        let dep = deps[k];
        let res = visit(dep, result, visiting);
        proof {
            assert(deps@.take(k + 1) =~= deps@.take(k as int).push(deps@[k as int]));
            lemma_visit_list_push(deps@.take(k as int), deps@[k as int], acc0);
        }
        match res {
            Ok(_) => {},
            Err(e) => {
                return Err(e);
            },
        }
        k = k + 1;
    }
    visiting.pop();
    result.push(component);
    proof {
        assert(deps@.take(deps@.len() as int) =~= deps@);
        lemma_visit_unfold(component, acc0);
        assert(visiting@ =~= old(visiting)@);
    }
    Ok(())
}

/// Resolve the dependency closure of a requested list into install
/// order: each requested component is expanded depth first, dependencies
/// placed before dependents, components already placed never repeated.
/// The static catalog is acyclic, so resolution always succeeds.
pub fn resolve_dependencies(components: &Vec<Component>) -> (r: Result<Vec<Component>, SetupError>)
    ensures
        r is Ok,
        r matches Ok(v) ==> v@ == spec_resolve(components@),
{
    let mut result: Vec<Component> = Vec::new();
    let mut visiting: Vec<Component> = Vec::new();
    let mut i: usize = 0;
    while i < components.len()
        invariant
            i <= components@.len(),
            visiting@ =~= Seq::<Component>::empty(),
            result@ == spec_visit_list(components@.take(i as int), Seq::empty()),
        decreases components@.len() - i,
    {
        let res = visit(components[i], &mut result, &mut visiting);
        proof {
            assert(components@.take(i + 1) =~= components@.take(i as int).push(
                components@[i as int],
            ));
            lemma_visit_list_push(components@.take(i as int), components@[i as int], Seq::empty());
        }
        match res {
            Ok(_) => {},
            Err(e) => {
                return Err(e);
            },
        }
        i = i + 1;
    }
    proof {
        assert(components@.take(components@.len() as int) =~= components@);
    }
    Ok(result)
}

/// Order a requested component list for installation.
///
/// Validation comes first: an empty request and a duplicated component
/// are errors. With `no_deps` the request is returned unchanged, in
/// input order; otherwise the dependency closure is resolved, with every
/// dependency placed before its dependent.
pub fn resolve(components: &Vec<Component>, no_deps: bool) -> (r: Result<
    Vec<Component>,
    SetupError,
>)
    ensures
        match r {
            Ok(v) => components@.len() > 0 && spec_first_dup_from(components@, 0) is None && (
            if no_deps {
                v@ == components@
            } else {
                v@ == spec_resolve(components@)
            }),
            Err(e) => match e@ {
                SetupErrorModel::NoComponents => components@.len() == 0,
                SetupErrorModel::DuplicateComponent(n) => exists|c: Component|
                    spec_first_dup_from(components@, 0) == Some(c) && n == spec_name(c),
                _ => false,
            },
        },
{
    match validate_components(components) {
        Ok(_) => {},
        Err(e) => {
            return Err(e);
        },
    }
    if no_deps {
        let copy = clone_components(components);
        Ok(copy)
    } else {
        resolve_dependencies(components)
    }
}

/// Clone a component list.
pub fn clone_components(v: &Vec<Component>) -> (r: Vec<Component>)
    ensures
        r@ == v@,
{
    let mut out: Vec<Component> = Vec::new();
    let mut i: usize = 0;
    while i < v.len()
        invariant
            i <= v@.len(),
            out@ =~= v@.take(i as int),
        decreases v@.len() - i,
    {
        out.push(v[i]);
        proof {
            assert(v@.take(i + 1) =~= v@.take(i as int).push(v@[i as int]));
        }
        i = i + 1;
    }
    proof {
        assert(v@.take(v@.len() as int) =~= v@);
    }
    out
}


/// The dependency numbered `d` of the component at position `k` stands
/// at an earlier position.
pub open spec fn dep_before(s: Seq<Component>, k: int, d: int) -> bool {
    exists|m: int| 0 <= m < k && s[m] == spec_dependencies(s[k])[d]
}

/// Every component of the order has its dependencies placed strictly
/// before it.
pub open spec fn deps_ordered(s: Seq<Component>) -> bool {
    forall|k: int, d: int|
        0 <= k < s.len() && 0 <= d < spec_dependencies(s[k]).len() ==> #[trigger] dep_before(
            s,
            k,
            d,
        )
}

proof fn lemma_push_props(acc: Seq<Component>, c: Component)
    requires
        acc.no_duplicates(),
        !acc.contains(c),
        deps_ordered(acc),
        forall|d: int|
            0 <= d < spec_dependencies(c).len() ==> acc.contains(
                #[trigger] spec_dependencies(c)[d],
            ),
    ensures
        acc.push(c).no_duplicates(),
        deps_ordered(acc.push(c)),
{
    let s = acc.push(c);
    assert forall|i: int, j: int| 0 <= i < j < s.len() implies s[i] != s[j] by {
        if j == acc.len() {
            if s[i] == c {
                assert(acc[i] == c);
                assert(acc.contains(c));
            }
        }
    }
    assert forall|k: int, d: int|
        0 <= k < s.len() && 0 <= d < spec_dependencies(s[k]).len() implies #[trigger] dep_before(
        s,
        k,
        d,
    ) by {
        if k < acc.len() {
            assert(s[k] == acc[k]);
            assert(0 <= d < spec_dependencies(acc[k]).len());
            assert(dep_before(acc, k, d));
            let m = choose|m: int| 0 <= m < k && acc[m] == spec_dependencies(acc[k])[d];
            assert(s[m] == spec_dependencies(s[k])[d]);
        } else {
            assert(s[k] == c);
            assert(acc.contains(spec_dependencies(c)[d]));
            let m = choose|m: int| 0 <= m < acc.len() && acc[m] == spec_dependencies(c)[d];
            assert(s[m] == spec_dependencies(s[k])[d]);
        }
    }
}

/// The properties [`spec_visit`] keeps: it extends its input in place,
/// places the visited component, adds only components of its dependency
/// chain, and preserves freedom from duplicates and dependency order.
pub proof fn lemma_visit_props(c: Component, acc: Seq<Component>)
    ensures
        spec_visit(c, acc).len() >= acc.len(),
        forall|i: int| 0 <= i < acc.len() ==> #[trigger] spec_visit(c, acc)[i] == acc[i],
        spec_visit(c, acc).contains(c),
        forall|x: Component| acc.contains(x) ==> #[trigger] spec_visit(c, acc).contains(x),
        forall|x: Component|
            #[trigger] spec_visit(c, acc).contains(x) ==> acc.contains(x) || rank(x) <= rank(c),
        acc.no_duplicates() && deps_ordered(acc) ==> spec_visit(c, acc).no_duplicates()
            && deps_ordered(spec_visit(c, acc)),
    decreases rank(c),
{
    let s = spec_visit(c, acc);
    if acc.contains(c) {
        assert forall|x: Component| acc.contains(x) implies #[trigger] s.contains(x) by {}
    } else {
        let expanded = match c {
            Component::Pm2 => spec_visit(Component::Pnpm, spec_visit(Component::Node, acc)),
            Component::Docker => spec_visit(Component::SystemPackages, acc),
            Component::NvidiaContainerRuntime => spec_visit(Component::Docker, acc),
            Component::Pnpm => spec_visit(Component::Node, acc),
            Component::GitLfs => spec_visit(Component::SystemPackages, acc),
            _ => acc,
        };
        match c {
            Component::Pm2 => {
                lemma_visit_props(Component::Node, acc);
                lemma_visit_props(Component::Pnpm, spec_visit(Component::Node, acc));
            },
            Component::Docker => {
                lemma_visit_props(Component::SystemPackages, acc);
            },
            Component::NvidiaContainerRuntime => {
                lemma_visit_props(Component::Docker, acc);
            },
            Component::Pnpm => {
                lemma_visit_props(Component::Node, acc);
            },
            Component::GitLfs => {
                lemma_visit_props(Component::SystemPackages, acc);
            },
            _ => {},
        }
        assert(s == expanded.push(c));
        assert(s.contains(c)) by {
            assert(s[s.len() - 1] == c);
        }
        assert forall|i: int| 0 <= i < acc.len() implies #[trigger] s[i] == acc[i] by {}
        assert forall|x: Component| acc.contains(x) implies #[trigger] s.contains(x) by {
            let w = choose|w: int| 0 <= w < acc.len() && acc[w] == x;
            assert(s[w] == x);
        }
        assert forall|x: Component| #[trigger] s.contains(x) implies acc.contains(x) || rank(x)
            <= rank(c) by {
            if x != c {
                assert(expanded.contains(x)) by {
                    let w = choose|w: int| 0 <= w < s.len() && s[w] == x;
                    assert(expanded[w] == x);
                }
            }
        }
        if acc.no_duplicates() && deps_ordered(acc) {
            assert(!expanded.contains(c)) by {
                lemma_dependency_rank(c);
            }
            assert forall|d: int|
                0 <= d < spec_dependencies(c).len() implies expanded.contains(
                #[trigger] spec_dependencies(c)[d],
            ) by {
                match c {
                    Component::Pm2 => {
                        let a1 = spec_visit(Component::Node, acc);
                        if d == 0 {
                            assert(expanded.contains(Component::Node)) by {
                                assert(a1.contains(Component::Node));
                            }
                        } else {
                            assert(expanded.contains(Component::Pnpm));
                        }
                    },
                    _ => {},
                }
            }
            lemma_push_props(expanded, c);
        }
    }
}

proof fn lemma_visit_list_props(cs: Seq<Component>, acc: Seq<Component>)
    ensures
        spec_visit_list(cs, acc).len() >= acc.len(),
        forall|i: int| 0 <= i < acc.len() ==> #[trigger] spec_visit_list(cs, acc)[i] == acc[i],
        forall|x: Component| acc.contains(x) ==> #[trigger] spec_visit_list(cs, acc).contains(x),
        forall|i: int|
            0 <= i < cs.len() ==> spec_visit_list(cs, acc).contains(#[trigger] cs[i]),
        acc.no_duplicates() && deps_ordered(acc) ==> spec_visit_list(cs, acc).no_duplicates()
            && deps_ordered(spec_visit_list(cs, acc)),
    decreases cs.len(),
{
    if cs.len() > 0 {
        let a1 = spec_visit(cs[0], acc);
        lemma_visit_props(cs[0], acc);
        lemma_visit_list_props(cs.drop_first(), a1);
        assert forall|i: int|
            0 <= i < cs.len() implies spec_visit_list(cs, acc).contains(#[trigger] cs[i]) by {
            if i == 0 {
                assert(a1.contains(cs[0]));
            } else {
                assert(cs.drop_first()[i - 1] == cs[i]);
                assert(spec_visit_list(cs.drop_first(), a1).contains(cs[i]));
            }
        }
    }
}

/// The resolved order never repeats a component, and every dependency of
/// a placed component stands strictly before it. Every requested
/// component is placed.
pub proof fn lemma_resolve_ordered(cs: Seq<Component>)
    ensures
        spec_resolve(cs).no_duplicates(),
        deps_ordered(spec_resolve(cs)),
        forall|i: int| 0 <= i < cs.len() ==> spec_resolve(cs).contains(#[trigger] cs[i]),
{
    assert(Seq::<Component>::empty().no_duplicates());
    assert(deps_ordered(Seq::<Component>::empty()));
    lemma_visit_list_props(cs, Seq::empty());
}

} // verus!
