use lumina::install::{expected_checksum, plan_update, platform_for, parse_latest_tag, release_artifacts, UpdateStep};

fn s(x: &str) -> String {
    x.to_string()
}

#[test]
fn update_steps() {
    assert_eq!(plan_update("1.2.0", "1.2.0", false, false), UpdateStep::UpToDate);
    assert_eq!(plan_update("1.2.0", "1.2.0", false, true), UpdateStep::UpToDate);
    assert_eq!(plan_update("1.2.0", "1.2.0", true, true), UpdateStep::UpToDate);
    assert_eq!(plan_update("1.3.0", "1.2.0", false, true), UpdateStep::Available);
    assert_eq!(plan_update("1.3.0", "1.2.0", false, false), UpdateStep::Install);
    assert_eq!(plan_update("1.3.0", "1.2.0", true, false), UpdateStep::Install);
    assert_eq!(plan_update("1.2.0", "1.2.0", true, false), UpdateStep::Reinstall);
}

#[test]
fn platforms() {
    assert_eq!(platform_for("linux", "x86_64"), "linux-x64");
    assert_eq!(platform_for("linux", "aarch64"), "linux-arm64");
    assert_eq!(platform_for("macos", "aarch64"), "macos-arm64");
    assert_eq!(platform_for("windows", "x86_64"), "windows-x64");
    assert_eq!(platform_for("windows", "aarch64"), "");
    assert_eq!(platform_for("freebsd", "x86_64"), "");
}

#[test]
fn artifacts_per_platform() {
    assert_eq!(
        release_artifacts("linux-x64", false),
        vec![(s("lumina-linux-x64"), s("lumina")), (s("lumina-linux-x64-lsp"), s("lumina-lsp"))]
    );
    assert_eq!(
        release_artifacts("windows-x64", true),
        vec![
            (s("lumina-windows-x64.exe"), s("lumina.exe")),
            (s("lumina-windows-x64-lsp.exe"), s("lumina-lsp.exe"))
        ]
    );
}

#[test]
fn checksum_is_first_word() {
    for c in ["abc123  lumina-linux-x64\n", "  \tdeadbeef", "", "   ", "onlyword"] {
        assert_eq!(expected_checksum(c), c.split_whitespace().next().unwrap_or(""));
    }
}

#[test]
fn profile_cleaning_drops_installer_lines() {
    let profile = "export A=1\n# Lumina\nexport PATH=\"$HOME/.lumina/bin:$PATH\"\n. \"$HOME/.lumina/env\"\nalias x=y\n";
    assert_eq!(
        lumina::install::clean_profile(profile),
        Some("export A=1\nalias x=y\n".to_string())
    );
    assert_eq!(lumina::install::clean_profile("export A=1"), None);
    assert_eq!(lumina::install::clean_profile(""), None);
    assert_eq!(lumina::install::clean_profile("a\n"), Some("a\n".to_string()));
    assert_eq!(lumina::install::clean_profile("  # Lumina  \r\nb"), Some("b\n".to_string()));
}

#[test]
fn lines_like_std() {
    for x in ["", "\n", "a", "a\n", "a\r\nb", "a\rb\n", "a\r", "\r\n\r\n", "x\n\ny"] {
        let expected: Vec<String> = x.lines().map(|l| l.to_string()).collect();
        assert_eq!(lumina::install::lines_of(x), expected, "input {:?}", x);
    }
}

#[test]
fn substring_search() {
    assert!(lumina::install::contains_str("abc", ""));
    assert!(lumina::install::contains_str("abc", "bc"));
    assert!(lumina::install::contains_str("abc", "abc"));
    assert!(!lumina::install::contains_str("abc", "abcd"));
    assert!(!lumina::install::contains_str("abc", "ac"));
}

#[test]
fn latest_tag_is_read_from_the_reply() {
    let reply = r#"{"url": "x", "tag_name": "v2.1.0", "draft": false}"#;
    assert_eq!(parse_latest_tag(reply), Some("v2.1.0".to_string()));
    assert_eq!(parse_latest_tag(r#"{"tag_name": 7}"#), None);
    assert_eq!(parse_latest_tag(r#"{"name": "v1"}"#), None);
    assert_eq!(parse_latest_tag(r#"["tag_name"]"#), None);
    assert_eq!(parse_latest_tag("not json"), None);
}
