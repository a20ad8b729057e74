use pyelevate::parser::parse_requirements_content;
use pyelevate::resolver::DependencyResolver;

#[test]
fn graph_tracks_dependents_and_dependencies() {
    let mut resolver = DependencyResolver::new();
    resolver.add_dependency("app", "requests");
    resolver.add_dependency("app", "flask");
    resolver.add_dependency("tool", "requests");
    let mut dependents = resolver.get_dependents("requests");
    dependents.sort();
    assert_eq!(dependents, vec!["app".to_string(), "tool".to_string()]);
    let mut deps = resolver.get_dependencies("app");
    deps.sort();
    assert_eq!(deps, vec!["flask".to_string(), "requests".to_string()]);
    assert!(resolver.get_dependents("unknown").is_empty());
    assert!(resolver.get_dependencies("flask").is_empty());
}

#[test]
fn registering_a_package_twice_keeps_one_node() {
    let mut resolver = DependencyResolver::new();
    resolver.add_package("requests");
    resolver.add_package("requests");
    resolver.add_dependency("app", "requests");
    assert_eq!(resolver.get_dependents("requests"), vec!["app".to_string()]);
}

#[test]
fn pending_dependency_upgrade_is_flagged_once() {
    let file = parse_requirements_content("r.txt", "a==1.0.0\nb==1.0.0\n");
    let mut packages = file.packages;
    for pkg in packages.iter_mut() {
        if pkg.name == "a" {
            pkg.dependencies.push("b".to_string());
        }
        if pkg.name == "b" {
            pkg.latest_version = Some("2.0.0".to_string());
        }
    }
    let resolver = DependencyResolver::new();
    let conflicts = resolver.detect_conflicts(&packages);
    assert_eq!(conflicts.len(), 1);
    assert_eq!(conflicts[0].package, "a");
    assert_eq!(conflicts[0].current, "1.0.0");
    assert_eq!(conflicts[0].required, "2.0.0");
    assert_eq!(
        conflicts[0].reason,
        "Requires b but upgrade to 2.0.0 may break compatibility"
    );
}

#[test]
fn no_pending_upgrade_means_no_conflicts() {
    let file = parse_requirements_content("r.txt", "a==1.0.0\nb==1.0.0\n");
    let mut packages = file.packages;
    for pkg in packages.iter_mut() {
        if pkg.name == "a" {
            pkg.dependencies.push("b".to_string());
        }
        if pkg.name == "b" {
            pkg.latest_version = Some("1.0.0".to_string());
        }
    }
    let resolver = DependencyResolver::new();
    assert!(resolver.detect_conflicts(&packages).is_empty());
}
