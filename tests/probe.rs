use vcpkg::env::{envify, EnvSnapshot};
use vcpkg::probe::{
    infer_static, join_path_str, msvc_target, probe_library, validate_vcpkg_root, Config, Error,
    Library, MsvcTarget,
};

fn msvc_env() -> EnvSnapshot {
    let mut env = EnvSnapshot::new();
    env.set("TARGET", "x86_64-pc-windows-msvc");
    env
}

fn files(items: &[&str]) -> Vec<String> {
    items.iter().map(|s| s.to_string()).collect()
}

fn lib_not_found(r: Result<Library, Error>) -> String {
    match r {
        Err(Error::LibNotFound(p)) => p,
        Err(e) => panic!("unexpected error: {}", e.message()),
        Ok(_) => panic!("unexpected success"),
    }
}

#[test]
fn dynamic_probe_finds_lib_and_dll() {
    let existing = files(&[
        "C:/vcpkg/.vcpkg-root",
        "C:/vcpkg/installed/x64-windows/lib/foo.lib",
        "C:/vcpkg/installed/x64-windows/bin/foo.dll",
    ]);
    let mut config = Config::new();
    let lib = config
        .probe_in("foo", &msvc_env(), Ok("C:/vcpkg".to_string()), &existing)
        .ok()
        .unwrap();
    assert!(!lib.is_static);
    assert_eq!(lib.include_paths, vec!["C:/vcpkg/installed/x64-windows/include"]);
    assert_eq!(lib.link_paths, vec!["C:/vcpkg/installed/x64-windows/lib"]);
    assert_eq!(
        lib.cargo_metadata,
        vec![
            "cargo:rustc-link-search=native=C:/vcpkg/installed/x64-windows/lib",
            "cargo:rustc-link-search=native=C:/vcpkg/installed/x64-windows/bin",
            "cargo:rustc-link-lib=foo",
        ]
    );
    assert_eq!(lib.found_libs, vec!["C:/vcpkg/installed/x64-windows/lib/foo.lib"]);
    assert_eq!(lib.found_dlls, vec!["C:/vcpkg/installed/x64-windows/bin/foo.dll"]);
}

#[test]
fn dynamic_probe_reports_missing_dll() {
    let existing = files(&["C:/vcpkg/.vcpkg-root", "C:/vcpkg/installed/x64-windows/lib/foo.lib"]);
    let mut config = Config::new();
    let path = lib_not_found(config.probe_in(
        "foo",
        &msvc_env(),
        Ok("C:/vcpkg".to_string()),
        &existing,
    ));
    assert_eq!(path, "C:/vcpkg/installed/x64-windows/bin/foo.dll");
}

#[test]
fn missing_lib_reported_before_dll() {
    let existing = files(&["C:/vcpkg/.vcpkg-root"]);
    let mut config = Config::new();
    let path = lib_not_found(config.probe_in(
        "foo",
        &msvc_env(),
        Ok("C:/vcpkg".to_string()),
        &existing,
    ));
    assert_eq!(path, "C:/vcpkg/installed/x64-windows/lib/foo.lib");
}

#[test]
fn static_probe_needs_no_dll() {
    let existing = files(&["C:/vcpkg/.vcpkg-root", "C:/vcpkg/installed/x86-windows-static/lib/curl.lib"]);
    let mut env = EnvSnapshot::new();
    env.set("TARGET", "i686-pc-windows-msvc");
    let mut config = Config::new();
    config.statik(true);
    let lib = config.probe_in("curl", &env, Ok("C:/vcpkg".to_string()), &existing).ok().unwrap();
    assert!(lib.is_static);
    assert_eq!(
        lib.cargo_metadata,
        vec![
            "cargo:rustc-link-search=native=C:/vcpkg/installed/x86-windows-static/lib",
            "cargo:rustc-link-lib=static=curl",
        ]
    );
    assert!(lib.found_dlls.is_empty());
    assert_eq!(lib.found_libs, vec!["C:/vcpkg/installed/x86-windows-static/lib/curl.lib"]);
    assert_eq!(lib.include_paths, vec!["C:/vcpkg/installed/x86-windows-static/include"]);
}

#[test]
fn static_probe_with_lib_name_override() {
    let existing = files(&[
        "C:/vcpkg/.vcpkg-root",
        "C:/vcpkg/installed/x86-windows-static/lib/libcurl.lib",
    ]);
    let mut env = EnvSnapshot::new();
    env.set("TARGET", "i686-pc-windows-msvc");
    let mut config = Config::new();
    config.statik(true).lib_name("libcurl");
    let lib = config.probe_in("curl", &env, Ok("C:/vcpkg".to_string()), &existing).ok().unwrap();
    assert_eq!(lib.found_libs, vec!["C:/vcpkg/installed/x86-windows-static/lib/libcurl.lib"]);
    assert_eq!(lib.cargo_metadata[1], "cargo:rustc-link-lib=static=libcurl");
    assert!(lib.found_dlls.is_empty());
}

#[test]
fn lib_names_split_link_and_runtime_names() {
    let existing = files(&[
        "/v/.vcpkg-root",
        "/v/installed/x64-windows/lib/libcurl_imp.lib",
        "/v/installed/x64-windows/bin/curl.dll",
        "/v/installed/x64-windows/lib/ssleay32.lib",
        "/v/installed/x64-windows/bin/ssleay32.dll",
    ]);
    let mut config = Config::new();
    config.lib_names("libcurl_imp", "curl").lib_name("ssleay32");
    let lib = config.probe_in("curl", &msvc_env(), Ok("/v/".to_string()), &existing).ok().unwrap();
    assert_eq!(
        lib.cargo_metadata,
        vec![
            "cargo:rustc-link-search=native=/v/installed/x64-windows/lib",
            "cargo:rustc-link-search=native=/v/installed/x64-windows/bin",
            "cargo:rustc-link-lib=libcurl_imp",
            "cargo:rustc-link-lib=ssleay32",
        ]
    );
    assert_eq!(
        lib.found_dlls,
        vec!["/v/installed/x64-windows/bin/curl.dll", "/v/installed/x64-windows/bin/ssleay32.dll"]
    );
}

#[test]
fn no_vcpkg_signal_disables_probe() {
    let mut env = msvc_env();
    env.set("LIB_FOO_NO_VCPKG", "1");
    let mut config = Config::new();
    let r = config.probe_in("lib-foo", &env, Err(Error::VcpkgNotFound("none".to_string())), &Vec::new());
    match r {
        Err(Error::EnvNoPkgConfig(name)) => assert_eq!(name, "LIB_FOO_NO_VCPKG"),
        _ => panic!("expected the probe to be disabled"),
    }
}

#[test]
fn non_msvc_target_is_rejected() {
    let mut env = EnvSnapshot::new();
    env.set("TARGET", "x86_64-unknown-linux-gnu");
    let mut config = Config::new();
    let r = config.probe_in("foo", &env, Ok("/v".to_string()), &Vec::new());
    assert!(matches!(r, Err(Error::NotMSVC)));
    let mut config = Config::new();
    let r = config.probe_in("foo", &EnvSnapshot::new(), Ok("/v".to_string()), &Vec::new());
    assert!(matches!(r, Err(Error::NotMSVC)));
}

#[test]
fn missing_root_marker_is_reported() {
    let mut config = Config::new();
    let r = config.probe_in("foo", &msvc_env(), Ok("/v".to_string()), &Vec::new());
    match r {
        Err(Error::VcpkgNotFound(detail)) => {
            assert_eq!(detail, "Could not find vcpkg root at /v/.vcpkg-root")
        }
        _ => panic!("expected the tree to be missing"),
    }
}

#[test]
fn located_root_error_is_passed_on() {
    let mut config = Config::new();
    let r = config.probe_in(
        "foo",
        &msvc_env(),
        Err(Error::VcpkgNotFound("no LOCALAPPDATA".to_string())),
        &Vec::new(),
    );
    match r {
        Err(Error::VcpkgNotFound(detail)) => assert_eq!(detail, "no LOCALAPPDATA"),
        _ => panic!("expected the located error"),
    }
}

#[test]
fn probe_on_disk_without_tree() {
    let r = probe_library(
        "foo",
        &msvc_env(),
        Ok("/nonexistent/vcpkg-tree-for-tests".to_string()),
    );
    match r {
        Err(Error::VcpkgNotFound(detail)) => assert_eq!(
            detail,
            "Could not find vcpkg root at /nonexistent/vcpkg-tree-for-tests/.vcpkg-root"
        ),
        _ => panic!("expected the tree to be missing"),
    }
}

#[test]
fn per_library_signal_beats_global_signal() {
    let mut env = msvc_env();
    env.set("VCPKG_ALL_STATIC", "1");
    env.set("FOO_DYNAMIC", "1");
    assert!(!infer_static("foo", &env));
    let existing = files(&[
        "/v/.vcpkg-root",
        "/v/installed/x64-windows/lib/foo.lib",
        "/v/installed/x64-windows/bin/foo.dll",
    ]);
    let mut config = Config::new();
    let lib = config.probe_in("foo", &env, Ok("/v".to_string()), &existing).ok().unwrap();
    assert!(!lib.is_static);
}

#[test]
fn linkage_signals_in_order() {
    let mut env = EnvSnapshot::new();
    assert!(!infer_static("foo", &env));
    env.set("VCPKG_ALL_DYNAMIC", "1");
    assert!(!infer_static("foo", &env));
    env.set("VCPKG_ALL_STATIC", "1");
    assert!(infer_static("foo", &env));
    env.set("FOO_DYNAMIC", "1");
    assert!(!infer_static("foo", &env));
    env.set("FOO_STATIC", "1");
    assert!(infer_static("foo", &env));
}

#[test]
fn statik_override_beats_signals() {
    let mut env = msvc_env();
    env.set("FOO_STATIC", "1");
    let existing = files(&[
        "/v/.vcpkg-root",
        "/v/installed/x64-windows/lib/foo.lib",
        "/v/installed/x64-windows/bin/foo.dll",
    ]);
    let mut config = Config::new();
    config.statik(false);
    let lib = config.probe_in("foo", &env, Ok("/v".to_string()), &existing).ok().unwrap();
    assert!(!lib.is_static);
}

#[test]
fn probing_twice_gives_the_same_result() {
    let existing = files(&[
        "/v/.vcpkg-root",
        "/v/installed/x64-windows/lib/foo.lib",
        "/v/installed/x64-windows/bin/foo.dll",
    ]);
    let mut config = Config::new();
    let first = config.probe_in("foo", &msvc_env(), Ok("/v".to_string()), &existing).ok().unwrap();
    let second = config.probe_in("foo", &msvc_env(), Ok("/v".to_string()), &existing).ok().unwrap();
    assert_eq!(first.cargo_metadata, second.cargo_metadata);
    assert_eq!(first.found_libs, second.found_libs);
    assert_eq!(first.found_dlls, second.found_dlls);
    assert_eq!(first.include_paths, second.include_paths);
    assert_eq!(first.link_paths, second.link_paths);
}

#[test]
fn envify_upper_cases_and_replaces_dashes() {
    assert_eq!(envify("lib-foo_bar9"), "LIB_FOO_BAR9");
    assert_eq!(envify(""), "");
    assert_eq!(envify("é-x"), "é_X");
}

#[test]
fn msvc_targets() {
    assert!(matches!(msvc_target("x86_64-pc-windows-msvc"), Ok(MsvcTarget::X64)));
    assert!(matches!(msvc_target("i686-pc-windows-msvc"), Ok(MsvcTarget::X86)));
    assert!(matches!(msvc_target("aarch64-pc-windows-msvc"), Ok(MsvcTarget::X86)));
    assert!(matches!(msvc_target("x86_64-pc-windows-gnu"), Err(Error::NotMSVC)));
    assert_eq!(MsvcTarget::X64.triplet(), "x64-windows");
    assert_eq!(MsvcTarget::X86.triplet(), "x86-windows");
}

#[test]
fn join_adds_one_separator() {
    assert_eq!(join_path_str("a", "b"), "a/b");
    assert_eq!(join_path_str("a/", "b"), "a/b");
    assert_eq!(join_path_str("C:\\v\\", "b"), "C:\\v\\b");
    assert_eq!(join_path_str("", "b"), "b");
}

#[test]
fn validate_root_checks_marker() {
    let existing = files(&["/v/.vcpkg-root"]);
    assert!(validate_vcpkg_root(&"/v".to_string(), &existing).is_ok());
    match validate_vcpkg_root(&"/w".to_string(), &existing) {
        Err(Error::VcpkgNotFound(d)) => assert_eq!(d, "Could not find vcpkg root at /w/.vcpkg-root"),
        _ => panic!("expected a missing root"),
    }
}

#[test]
fn error_messages() {
    assert_eq!(
        Error::EnvNoPkgConfig("FOO_NO_VCPKG".to_string()).message(),
        "Aborted because FOO_NO_VCPKG is set"
    );
    assert_eq!(
        Error::NotMSVC.message(),
        "this vcpkg build helper can only find libraries built for the MSVC ABI."
    );
    assert_eq!(Error::VcpkgNotFound("x".to_string()).message(), "Could not find vcpkg tree: x");
    assert_eq!(
        Error::LibNotFound("p".to_string()).message(),
        "Could not find library in vcpkg tree p"
    );
    assert_eq!(Error::NotMSVC.description(), "vcpkg only can only find libraries for MSVC ABI 64 bit builds");
    assert_eq!(Error::LibNotFound(String::new()).description(), "could not find library in vcpkg tree");
}

#[test]
fn library_new_is_empty() {
    let lib = Library::new(true);
    assert!(lib.is_static);
    assert!(lib.cargo_metadata.is_empty() && lib.found_dlls.is_empty() && lib.found_libs.is_empty());
    assert!(lib.link_paths.is_empty() && lib.include_paths.is_empty());
}

#[test]
fn config_cargo_metadata_flag() {
    let mut config = Config::new();
    assert!(config.emits_cargo_metadata());
    config.cargo_metadata(false);
    assert!(!config.emits_cargo_metadata());
}

#[test]
fn env_snapshot_lookup() {
    let mut env = EnvSnapshot::new();
    assert!(!env.is_set("A"));
    assert_eq!(env.var("A"), None);
    env.set("A", "1");
    env.set("A", "2");
    assert!(env.is_set("A"));
    assert_eq!(env.var("A"), Some("2".to_string()));
}
