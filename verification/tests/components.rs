use devflow::component::{
    resolve, resolve_dependencies, validate_components, Component, SetupError,
};

#[test]
fn pm2_pulls_node_and_pnpm_first() {
    let requested = vec![Component::Pm2];
    let ordered = resolve(&requested, false).unwrap();
    assert_eq!(ordered, vec![Component::Node, Component::Pnpm, Component::Pm2]);
}

#[test]
fn duplicate_requests_are_rejected() {
    let requested = vec![Component::Docker, Component::Docker];
    match resolve(&requested, false) {
        Err(SetupError::DuplicateComponent { name }) => assert_eq!(name, "docker"),
        other => panic!("expected a duplicate error, got {:?}", other),
    }
}

#[test]
fn empty_request_is_rejected() {
    let requested: Vec<Component> = Vec::new();
    assert!(matches!(resolve(&requested, false), Err(SetupError::NoComponents)));
    assert!(matches!(
        validate_components(&requested),
        Err(SetupError::NoComponents)
    ));
}

#[test]
fn no_deps_returns_request_unchanged() {
    let requested = vec![Component::Pm2, Component::Docker];
    let ordered = resolve(&requested, true).unwrap();
    assert_eq!(ordered, requested);
}

#[test]
fn dependencies_come_before_dependents_without_repeats() {
    let requested = Component::all();
    let ordered = resolve_dependencies(&requested).unwrap();
    for (i, c) in ordered.iter().enumerate() {
        for d in c.dependencies() {
            let at = ordered.iter().position(|x| *x == d).unwrap();
            assert!(at < i, "{} must come before {}", d.name(), c.name());
        }
        assert_eq!(ordered.iter().filter(|x| **x == *c).count(), 1);
    }
    for c in &requested {
        assert!(ordered.contains(c));
    }
}

#[test]
fn shared_dependencies_are_placed_once() {
    let requested = vec![Component::Docker, Component::GitLfs];
    let ordered = resolve_dependencies(&requested).unwrap();
    assert_eq!(
        ordered,
        vec![Component::SystemPackages, Component::Docker, Component::GitLfs]
    );
}

#[test]
fn names_parse_back_to_components() {
    for c in Component::all() {
        assert_eq!(Component::from_str(c.name()).unwrap(), c);
    }
    match Component::from_str("warp_drive") {
        Err(SetupError::UnknownComponent { name }) => assert_eq!(name, "warp_drive"),
        other => panic!("expected an unknown-component error, got {:?}", other),
    }
}

#[test]
fn static_edges_match_the_catalog() {
    assert_eq!(
        Component::Pm2.dependencies(),
        vec![Component::Node, Component::Pnpm]
    );
    assert_eq!(Component::Pnpm.dependencies(), vec![Component::Node]);
    assert_eq!(Component::Docker.dependencies(), vec![Component::SystemPackages]);
    assert_eq!(
        Component::NvidiaContainerRuntime.dependencies(),
        vec![Component::Docker]
    );
    assert_eq!(Component::GitLfs.dependencies(), vec![Component::SystemPackages]);
    assert!(Component::Zoxide.dependencies().is_empty());
    assert_eq!(Component::all().len(), 14);
}

#[test]
fn setup_error_messages_name_the_component() {
    assert_eq!(SetupError::NoComponents.message(), "No components specified");
    let dup = SetupError::DuplicateComponent { name: "docker".to_string() };
    assert_eq!(dup.message(), "Duplicate component: docker");
    let unknown = SetupError::UnknownComponent { name: "warp_drive".to_string() };
    assert_eq!(unknown.message(), "Unknown component: warp_drive");
}
