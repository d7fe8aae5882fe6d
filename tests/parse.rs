use vcpkg::args::flag_value;
use vcpkg::locate::project_path;
use vcpkg::progress::{major_version, needs_bootstrap, parse_apple_clang_version, parse_build_line};
use vcpkg::text::{has_infix_str, has_prefix, parse_u64, strip_all_prefixes};

#[test]
fn test_parse_apple_clang_version() {
    assert_eq!(parse_apple_clang_version(b"la la la\nApple clang version 9.0.1"), Some(9));
    assert_eq!(
        parse_apple_clang_version(b"ho ho ho\nhe he he\nApple clang version 10.0.1"),
        Some(10)
    );
    assert_eq!(parse_apple_clang_version(b"Apple clang version 11.0.1"), Some(11));
    assert_eq!(parse_apple_clang_version(b"Apple clang version 12.0.1"), Some(12));
    assert_eq!(parse_apple_clang_version(b"Opple clong version 12.0.1"), None);
}

#[test]
fn clang_version_edge_cases() {
    assert_eq!(parse_apple_clang_version(b""), None);
    assert_eq!(parse_apple_clang_version(b"Apple clang version 13\r\nx"), Some(13));
    assert_eq!(parse_apple_clang_version(b"Apple clang version x.1\nApple clang version 12.0"), None);
    assert_eq!(parse_apple_clang_version(b"Apple clang version Apple clang version 14.0"), Some(14));
    // a line that is not UTF-8 is passed over
    assert_eq!(
        parse_apple_clang_version(b"Apple clang version 9.0 \xff\nApple clang version 15.0"),
        Some(15)
    );
    assert_eq!(major_version(b"Apple clang version 9.0 \xff"), Some(9));
}

#[test]
fn build_line_is_read() {
    let (pkg, triplet, cnt, tot) =
        parse_build_line("Starting package 3/10: zlib:x64-windows").unwrap();
    assert_eq!((pkg.as_str(), triplet.as_str(), cnt, tot), ("zlib", "x64-windows", 3, 10));
}

#[test]
fn build_line_edge_cases() {
    assert!(parse_build_line("Building package zlib").is_none());
    assert!(parse_build_line("Starting package 3/10 zlib").is_none());
    assert!(parse_build_line("Starting package 3/10: zlib").is_none());
    let (pkg, triplet, cnt, tot) =
        parse_build_line("Starting package x/10:  boost:core:x86-windows  ").unwrap();
    assert_eq!((pkg.as_str(), triplet.as_str(), cnt, tot), ("boost:core", "x86-windows", 0, 0));
    let (_, _, cnt, tot) = parse_build_line("Starting package 7:a:b").unwrap();
    assert_eq!((cnt, tot), (0, 0));
    let (_, _, cnt, tot) = parse_build_line("Starting package +1/2:a:b").unwrap();
    assert_eq!((cnt, tot), (1, 2));
    let (pkg, triplet, _, _) =
        parse_build_line("Starting package Starting package 1/1:\u{3000}\tzlib:x64\u{a0}\u{1c}\u{2028}")
            .unwrap();
    assert_eq!((pkg.as_str(), triplet.as_str()), ("zlib", "x64\u{a0}\u{1c}"));
}

#[test]
fn bootstrap_decision() {
    assert!(needs_bootstrap(false, ""));
    assert!(!needs_bootstrap(true, "All installed packages are up-to-date"));
    assert!(needs_bootstrap(true, "x\nWarning: Different source is available for vcpkg (1 != 2)"));
}

#[test]
fn flag_values() {
    let args: Vec<String> = ["cargo-vcpkg", "build", "--target", "x86_64-pc-windows-msvc"]
        .iter()
        .map(|s| s.to_string())
        .collect();
    assert_eq!(flag_value(&args, "--target"), Some("x86_64-pc-windows-msvc".to_string()));
    let args: Vec<String> = ["build", "--manifest-path=a/Cargo.toml"].iter().map(|s| s.to_string()).collect();
    assert_eq!(flag_value(&args, "--manifest-path"), Some("a/Cargo.toml".to_string()));
    assert_eq!(flag_value(&args, "--target"), None);
    let args: Vec<String> = ["build", "--target"].iter().map(|s| s.to_string()).collect();
    assert_eq!(flag_value(&args, "--target"), None);
}

#[test]
fn project_path_in_user_targets() {
    assert_eq!(
        project_path("  <Import Condition=\"x\" Project=\"C:\\src\\vcpkg\\scripts\\buildsystems\\msbuild\\vcpkg.targets\" />"),
        Some("C:\\src\\vcpkg\\scripts\\buildsystems\\msbuild\\vcpkg.targets".to_string())
    );
    assert_eq!(project_path("<Project>"), None);
    assert_eq!(project_path("Project=\""), None);
    assert_eq!(project_path("Project=\"\""), Some(String::new()));
    assert_eq!(project_path("Project=\"abcProject=\"def\""), Some("abc".to_string()));
}

#[test]
fn text_helpers() {
    assert!(has_prefix("x86_64-pc", "x86_64-"));
    assert!(!has_prefix("x86", "x86_64-"));
    assert!(has_infix_str("i686-pc-windows-msvc", "-pc-windows-msvc"));
    assert!(!has_infix_str("i686-pc-windows-gnu", "-pc-windows-msvc"));
    assert_eq!(strip_all_prefixes("abab-c", "ab"), "-c");
    assert_eq!(strip_all_prefixes("abc", ""), "abc");
    let digits: Vec<char> = "18446744073709551615".chars().collect();
    assert_eq!(parse_u64(&digits, 0, digits.len()), Some(u64::MAX));
    let digits: Vec<char> = "18446744073709551616".chars().collect();
    assert_eq!(parse_u64(&digits, 0, digits.len()), None);
    let digits: Vec<char> = "+".chars().collect();
    assert_eq!(parse_u64(&digits, 0, digits.len()), None);
    let digits: Vec<char> = "-1".chars().collect();
    assert_eq!(parse_u64(&digits, 0, digits.len()), None);
}
