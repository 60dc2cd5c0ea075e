use toml_describe::rustc::{get_rustc, probe_command, probe_outcome, ProbeError, VersionData};

const STABLE_BANNER: &str = "rustc 1.75.0 (82e1608df 2023-12-21)\nbinary: rustc\ncommit-hash: 82e1608dfa6e0b5569232559e3d385fea5a93112\ncommit-date: 2023-12-21\nhost: x86_64-unknown-linux-gnu\nrelease: 1.75.0\nLLVM version: 17.0.6\n";

const NIGHTLY_BANNER: &str = "rustc 1.77.0-nightly (bf8716f1c 2023-12-24)\nbinary: rustc\ncommit-hash: bf8716f1cd6416266807706bcae0ecb2e51c9d4a\ncommit-date: 2023-12-24\nhost: x86_64-unknown-linux-gnu\nrelease: 1.77.0-nightly\nLLVM version: 17.0.6\n";

fn banner_with_release_line(line: &str) -> String {
    format!("a\nb\nc\nd\ne\n{}\ng\n", line)
}

fn numbers(data: &VersionData) -> (u64, u64, u64) {
    (data.version.major(), data.version.minor(), data.version.patch())
}

#[test]
fn stable_banner_is_read() {
    let data = VersionData::from_banner(STABLE_BANNER).unwrap();
    assert_eq!(numbers(&data), (1, 75, 0));
    assert_eq!(data.version.tag(), "");
    assert!(!data.nightly);
}

#[test]
fn nightly_banner_is_read() {
    let data = VersionData::from_banner(NIGHTLY_BANNER).unwrap();
    assert_eq!(numbers(&data), (1, 77, 0));
    assert_eq!(data.version.tag(), "");
    assert!(data.nightly);
}

#[test]
fn other_channel_tags_are_not_nightly() {
    let data = VersionData::from_banner(&banner_with_release_line("release: 1.76.0-beta.3")).unwrap();
    assert_eq!(numbers(&data), (1, 76, 0));
    assert!(!data.nightly);
    let data =
        VersionData::from_banner(&banner_with_release_line("release: 1.76.0-dev-nightly")).unwrap();
    assert!(!data.nightly);
    let data =
        VersionData::from_banner(&banner_with_release_line("release: 1.76.0-nightly-x")).unwrap();
    assert!(data.nightly);
}

#[test]
fn short_banner_is_refused() {
    assert_eq!(VersionData::from_banner("").err(), Some(ProbeError::MissingReleaseLine));
    assert_eq!(
        VersionData::from_banner("a\nb\nc\nd\nrelease: 1.0.0").err(),
        Some(ProbeError::MissingReleaseLine)
    );
}

#[test]
fn sixth_line_of_another_form_is_refused() {
    for line in ["", "release:", "version: 1.0.0", "release:1.0.0", " release: 1.0.0"] {
        assert_eq!(
            VersionData::from_banner(&banner_with_release_line(line)).err(),
            Some(ProbeError::NotReleaseForm),
            "{:?}",
            line
        );
    }
}

#[test]
fn sixth_line_without_a_version_is_refused() {
    for line in ["release: 1.0", "release: one", "release:  1.0.0", "release: -nightly", "release: 1.0.0\r"] {
        assert_eq!(
            VersionData::from_banner(&banner_with_release_line(line)).err(),
            Some(ProbeError::InvalidVersion),
            "{:?}",
            line
        );
    }
}

#[test]
fn words_behind_the_version_are_passed_over() {
    let data = VersionData::from_banner(&banner_with_release_line("release: 1.2.3 (custom)")).unwrap();
    assert_eq!(numbers(&data), (1, 2, 3));
}

#[test]
fn compiler_is_chosen_in_order_of_the_overrides() {
    assert_eq!(get_rustc(Some("/a/rustc"), Some("/b/rustc")), "/a/rustc");
    assert_eq!(get_rustc(Some("/a/rustc"), None), "/a/rustc");
    assert_eq!(get_rustc(None, Some("/b/rustc")), "/b/rustc");
    assert_eq!(get_rustc(None, None), "rustc");
}

#[test]
fn probe_command_without_wrapper_or_flags() {
    let command = probe_command("fn f() {}", "rustc", None, "x86_64-unknown-linux-gnu", "out", None);
    assert_eq!(command.program, "rustc");
    assert_eq!(
        command.arguments,
        [
            "--crate-type=rlib",
            "--emit=metadata",
            "--target",
            "x86_64-unknown-linux-gnu",
            "--out-dir",
            "out",
            "-"
        ]
    );
    assert_eq!(command.input, "fn f() {}\n");
}

#[test]
fn probe_command_behind_a_wrapper_with_flags() {
    let command = probe_command(
        "fn f() {}",
        "/bin/rustc",
        Some("sccache"),
        "t",
        "o",
        Some("-Cdebuginfo=2\u{1f}--cfg\u{1f}x"),
    );
    assert_eq!(command.program, "sccache");
    assert_eq!(
        command.arguments,
        [
            "/bin/rustc",
            "--crate-type=rlib",
            "--emit=metadata",
            "--target",
            "t",
            "--out-dir",
            "o",
            "-Cdebuginfo=2",
            "--cfg",
            "x",
            "-"
        ]
    );
}

#[test]
fn empty_flags_add_no_argument() {
    let command = probe_command("", "rustc", None, "t", "o", Some(""));
    assert_eq!(command.arguments.len(), 7);
    assert_eq!(command.input, "\n");
    let command = probe_command("", "rustc", None, "t", "o", Some("\u{1f}"));
    assert_eq!(command.arguments[6..], ["", "", "-"]);
}

#[test]
fn probe_counts_as_compiled_only_where_the_whole_run_went_well() {
    assert!(probe_outcome(true, true, Some(true)));
    assert!(!probe_outcome(true, true, Some(false)));
    assert!(!probe_outcome(true, true, None));
    assert!(!probe_outcome(true, false, Some(true)));
    assert!(!probe_outcome(false, true, Some(true)));
    assert!(!probe_outcome(false, false, None));
}
