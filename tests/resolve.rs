use vcpkg::manifest::{
    resolve, select_revision, PackageDeclaration, ResolveError, ResolvedInstallSet, RevSelector,
    TargetOverride, WorkspacePackage,
};

fn strings(items: &[&str]) -> Vec<String> {
    items.iter().map(|s| s.to_string()).collect()
}

fn empty_declaration() -> PackageDeclaration {
    PackageDeclaration {
        git: None,
        branch: None,
        tag: None,
        rev: None,
        dependencies: None,
        dev_dependencies: None,
        targets: Vec::new(),
    }
}

fn package(id: &str, declaration: Option<PackageDeclaration>) -> WorkspacePackage {
    WorkspacePackage { id: id.to_string(), declaration }
}

fn no_override() -> TargetOverride {
    TargetOverride { triplet: None, dependencies: None, dev_dependencies: None }
}

fn resolve_ok(packages: &Vec<WorkspacePackage>, root: &str, target: &str) -> ResolvedInstallSet {
    match resolve(packages, &Some(root.to_string()), target) {
        Ok(set) => set,
        Err(e) => panic!("unexpected error: {}", e.message()),
    }
}

/// A workspace with a root "top" and a dependency "dep" that both declare
/// settings for the MSVC target.
fn combined_workspace(root_first: bool) -> Vec<WorkspacePackage> {
    let mut top = empty_declaration();
    top.dependencies = Some(strings(&["a"]));
    top.dev_dependencies = Some(strings(&["d"]));
    let mut top_override = no_override();
    top_override.triplet = Some("x64-windows-static-md".to_string());
    top_override.dev_dependencies = Some(strings(&["b", "c"]));
    top.targets.push(("x86_64-pc-windows-msvc".to_string(), top_override));

    let mut dep = empty_declaration();
    dep.dependencies = Some(strings(&["m"]));
    dep.dev_dependencies = Some(strings(&["n"]));
    let mut dep_override = no_override();
    dep_override.triplet = Some("x64-windows-static-md".to_string());
    dep_override.dependencies = Some(strings(&["o"]));
    dep_override.dev_dependencies = Some(strings(&["p"]));
    dep.targets.push(("x86_64-pc-windows-msvc".to_string(), dep_override));

    let top = package("top", Some(top));
    let dep = package("dep", Some(dep));
    if root_first {
        vec![top, dep]
    } else {
        vec![dep, top]
    }
}

#[test]
fn run_on_workspace_fails() {
    let packages = vec![package("top", None), package("dep", Some(empty_declaration()))];
    let err = resolve(&packages, &None, "").err().unwrap();
    assert!(err.message().contains("cannot run on a virtual manifest"));
    assert_eq!(err, ResolveError::NoRootPackage);
}

#[test]
fn install_in_root_crate() {
    let mut top = empty_declaration();
    top.dependencies = Some(strings(&["z85"]));
    let packages = vec![package("top", Some(top)), package("dep", Some(empty_declaration()))];
    let set = resolve_ok(&packages, "top", "");
    assert_eq!(set.ports, vec!["z85"]);
}

#[test]
fn same_dependencies_but_specified_triplet() {
    let mut top = empty_declaration();
    top.dependencies = Some(strings(&["z85"]));
    let mut o = no_override();
    o.triplet = Some("x64-windows-static-md".to_string());
    top.targets.push(("x86_64-pc-windows-msvc".to_string(), o));
    let packages = vec![package("top", Some(top)), package("dep", Some(empty_declaration()))];
    let set = resolve_ok(&packages, "top", "x86_64-pc-windows-msvc");
    assert_eq!(set.ports, vec!["z85"]);
    assert_eq!(set.triplet, Some("x64-windows-static-md".to_owned()));
}

#[test]
fn specified_triplet_requires_no_dependencies() {
    let mut top = empty_declaration();
    top.dependencies = Some(strings(&["z85"]));
    let mut o = no_override();
    o.triplet = Some("x64-windows-static-md".to_string());
    o.dependencies = Some(Vec::new());
    top.targets.push(("x86_64-pc-windows-msvc".to_string(), o));
    let packages = vec![package("top", Some(top)), package("dep", Some(empty_declaration()))];
    let set = resolve_ok(&packages, "top", "x86_64-pc-windows-msvc");
    assert_eq!(set.ports, Vec::<String>::new());
    assert_eq!(set.triplet, Some("x64-windows-static-md".to_owned()));
}

#[test]
fn combine_deps_from_all_crates() {
    let packages = combined_workspace(false);
    let mut ports = resolve_ok(&packages, "top", "x86_64-pc-windows-msvc").ports;
    let triplet = resolve_ok(&packages, "top", "x86_64-pc-windows-msvc").triplet;
    ports.sort();
    assert_eq!(ports, vec!["a", "b", "c", "o"]);
    assert_eq!(triplet, Some("x64-windows-static-md".to_owned()));

    let mut ports = resolve_ok(&packages, "top", "").ports;
    ports.sort();
    assert_eq!(ports, vec!["a", "d", "m"]);
}

#[test]
fn root_override_adds_dev_dependencies_in_order() {
    // The root's settings for the target add its dev-dependencies and choose
    // the triplet; the dependency has no settings for the target here.
    let mut top = empty_declaration();
    top.dependencies = Some(strings(&["a"]));
    top.dev_dependencies = Some(strings(&["d"]));
    let mut o = no_override();
    o.triplet = Some("x64-windows-static".to_string());
    o.dev_dependencies = Some(strings(&["b", "c"]));
    top.targets.push(("x86_64-pc-windows-msvc".to_string(), o));
    let mut dep = empty_declaration();
    dep.dependencies = Some(strings(&["m"]));

    let root_first = vec![package("top", Some(top)), package("dep", Some(dep))];
    let set = resolve_ok(&root_first, "top", "x86_64-pc-windows-msvc");
    assert_eq!(set.ports, vec!["a", "b", "c", "m"]);
    assert_eq!(set.triplet, Some("x64-windows-static".to_string()));

    let set = resolve_ok(&root_first, "top", "");
    assert_eq!(set.ports, vec!["a", "d", "m"]);
    assert_eq!(set.triplet, None);
}

#[test]
fn dependency_listed_first_comes_first() {
    let packages = combined_workspace(false);
    let set = resolve_ok(&packages, "top", "x86_64-pc-windows-msvc");
    assert_eq!(set.ports, vec!["o", "a", "b", "c"]);
    let set = resolve_ok(&packages, "top", "");
    assert_eq!(set.ports, vec!["m", "a", "d"]);
}

#[test]
fn empty_override_list_suppresses_general_list() {
    let mut dep = empty_declaration();
    dep.dependencies = Some(strings(&["zlib", "openssl"]));
    let mut o = no_override();
    o.dependencies = Some(Vec::new());
    dep.targets.push(("t".to_string(), o));
    let packages = vec![package("top", Some(empty_declaration())), package("dep", Some(dep))];
    assert_eq!(resolve_ok(&packages, "top", "t").ports, Vec::<String>::new());
    assert_eq!(resolve_ok(&packages, "top", "u").ports, vec!["zlib", "openssl"]);
}

#[test]
fn override_without_list_falls_back_to_general() {
    let mut dep = empty_declaration();
    dep.dependencies = Some(strings(&["zlib"]));
    dep.targets.push(("t".to_string(), no_override()));
    let packages = vec![package("top", Some(empty_declaration())), package("dep", Some(dep))];
    assert_eq!(resolve_ok(&packages, "top", "t").ports, vec!["zlib"]);
}

#[test]
fn non_root_dev_dependencies_never_installed() {
    let mut dep = empty_declaration();
    dep.dev_dependencies = Some(strings(&["gtest"]));
    let mut o = no_override();
    o.dev_dependencies = Some(strings(&["catch2"]));
    dep.targets.push(("t".to_string(), o));
    let packages = vec![package("top", Some(empty_declaration())), package("dep", Some(dep))];
    assert_eq!(resolve_ok(&packages, "top", "t").ports, Vec::<String>::new());
    assert_eq!(resolve_ok(&packages, "top", "").ports, Vec::<String>::new());
}

#[test]
fn non_root_source_and_triplet_ignored() {
    let mut dep = empty_declaration();
    dep.git = Some("https://example.invalid/vcpkg".to_string());
    dep.branch = Some("main".to_string());
    dep.tag = Some("v1".to_string());
    let mut o = no_override();
    o.triplet = Some("x86-windows".to_string());
    dep.targets.push(("t".to_string(), o));
    let packages = vec![package("top", Some(empty_declaration())), package("dep", Some(dep))];
    let set = resolve_ok(&packages, "top", "t");
    assert!(set.source.is_none());
    assert_eq!(set.triplet, None);
}

#[test]
fn root_source_is_adopted() {
    let mut top = empty_declaration();
    top.git = Some("https://github.com/microsoft/vcpkg".to_string());
    top.rev = Some("261c458".to_string());
    let packages = vec![package("top", Some(top))];
    let set = resolve_ok(&packages, "top", "");
    let source = set.source.unwrap();
    assert_eq!(source.git, "https://github.com/microsoft/vcpkg");
    assert!(matches!(source.selector, RevSelector::Rev(ref r) if r == "261c458"));
}

#[test]
fn root_source_with_two_revisions_fails() {
    let mut top = empty_declaration();
    top.git = Some("https://github.com/microsoft/vcpkg".to_string());
    top.branch = Some("master".to_string());
    top.tag = Some("2020.11".to_string());
    let packages = vec![package("top", Some(top))];
    let err = resolve(&packages, &Some("top".to_string()), "").err().unwrap();
    assert_eq!(err, ResolveError::AmbiguousSourceRevision);
    assert_eq!(err.message(), "must specify one of branch,rev,tag for git source");
}

#[test]
fn root_source_without_revision_fails() {
    let mut top = empty_declaration();
    top.git = Some("https://github.com/microsoft/vcpkg".to_string());
    let packages = vec![package("top", Some(top))];
    let err = resolve(&packages, &Some("top".to_string()), "").err().unwrap();
    assert_eq!(err, ResolveError::AmbiguousSourceRevision);
}

#[test]
fn select_revision_needs_exactly_one() {
    let some = |s: &str| Some(s.to_string());
    assert!(matches!(select_revision(&some("b"), &None, &None), Ok(RevSelector::Branch(ref b)) if b == "b"));
    assert!(matches!(select_revision(&None, &some("t"), &None), Ok(RevSelector::Tag(ref t)) if t == "t"));
    assert!(matches!(select_revision(&None, &None, &some("r")), Ok(RevSelector::Rev(ref r)) if r == "r"));
    assert!(matches!(select_revision(&None, &None, &None), Err(ResolveError::AmbiguousSourceRevision)));
    assert!(matches!(
        select_revision(&some("b"), &some("t"), &some("r")),
        Err(ResolveError::AmbiguousSourceRevision)
    ));
    assert!(matches!(select_revision(&None, &some("t"), &some("r")), Err(ResolveError::AmbiguousSourceRevision)));
}

#[test]
fn checkout_plan_pulls_only_branches() {
    let (desc, name, pull) = RevSelector::Branch("master".to_string()).checkout();
    assert_eq!((desc, name.as_str(), pull), ("branch", "master", true));
    let (desc, name, pull) = RevSelector::Tag("2020.11".to_string()).checkout();
    assert_eq!((desc, name.as_str(), pull), ("tag", "2020.11", false));
    let (desc, name, pull) = RevSelector::Rev("abc".to_string()).checkout();
    assert_eq!((desc, name.as_str(), pull), ("rev", "abc", false));
}

#[test]
fn package_without_metadata_is_skipped() {
    let mut top = empty_declaration();
    top.dependencies = Some(strings(&["x"]));
    let packages = vec![package("other", None), package("top", Some(top))];
    assert_eq!(resolve_ok(&packages, "top", "").ports, vec!["x"]);
}

#[test]
fn first_target_entry_applies() {
    let mut top = empty_declaration();
    let mut first = no_override();
    first.dependencies = Some(strings(&["one"]));
    let mut second = no_override();
    second.dependencies = Some(strings(&["two"]));
    top.targets.push(("t".to_string(), first));
    top.targets.push(("t".to_string(), second));
    let packages = vec![package("top", Some(top))];
    assert_eq!(resolve_ok(&packages, "top", "t").ports, vec!["one"]);
}
