use cargo_list::errors::ErrorKind;
use cargo_list::inventory::{Crates, RawEntry, RegistryEntry};
use cargo_list::kind::Kind;
use cargo_list::parse::{active_version_of, parse_key, parse_rustc_version};
use cargo_list::pkg::{Crate, RawCrate};
use cargo_list::resolve::{latest, VersionRecord};
use cargo_list::command::parse_update_command;
use cargo_list::expand::expanduser;
use cargo_list::text::{join_commas, split_commas};

const TOOLCHAIN: &str = "stable-x86_64-unknown-linux-gnu (default)\nrustc 1.80.0 (abcdef123 2024-06-01)\n";

fn raw(version_req: Option<&str>) -> RawCrate {
    RawCrate {
        version_req: version_req.map(|s| s.to_string()),
        bins: vec!["foo".to_string()],
        features: Vec::new(),
        all_features: false,
        no_default_features: false,
        profile: "release".to_string(),
        target: "x86_64-unknown-linux-gnu".to_string(),
        rustc: "rustc 1.80.0 (abcdef123 2024-06-01)".to_string(),
    }
}

fn entry(key: &str, version_req: Option<&str>) -> RawEntry {
    RawEntry {
        key: key.to_string(),
        info: raw(version_req),
    }
}

fn record(num: &str, yanked: bool) -> VersionRecord {
    VersionRecord {
        num: num.to_string(),
        yanked,
    }
}

fn registry(name: &str, nums: &[&str]) -> RegistryEntry {
    RegistryEntry {
        name: name.to_string(),
        outcome: Ok(nums.iter().map(|n| record(n, false)).collect()),
    }
}

#[test]
fn kind_from_prefixes() {
    assert_eq!(Kind::from("git+https://github.com/u/r#abc"), Kind::Git);
    assert_eq!(Kind::from("path+file:///home/u/src"), Kind::Local);
    assert_eq!(
        Kind::from("registry+https://github.com/rust-lang/crates.io-index"),
        Kind::External
    );
    assert_eq!(Kind::from(""), Kind::External);
}

#[test]
fn parse_key_recovers_fields() {
    let parts = parse_key("foo 1.0.0 (registry+https://x)").expect("valid key");
    assert_eq!(parts.name, "foo");
    assert_eq!(parts.installed, "1.0.0");
    assert_eq!(parts.source, "registry+https://x");
}

#[test]
fn parse_key_trailing_space_ok() {
    let parts = parse_key("foo 1.0.0 (registry+https://x) ").expect("valid key");
    assert_eq!(parts.name, "foo");
    assert_eq!(parts.installed, "1.0.0");
    assert_eq!(parts.source, "registry+https://x");
}

#[test]
fn parse_key_malformed() {
    assert!(parse_key("foo (bad)").is_none());
    assert!(parse_key("foo").is_none());
    assert!(parse_key("foo 1.0.0 bad").is_none());
    assert!(parse_key("foo 1.0.0").is_none());
}

#[test]
fn parse_rustc_version_ok() {
    assert_eq!(
        parse_rustc_version("rustc 1.80.0 (abcdef123 2024-06-01)").as_deref(),
        Some("1.80.0")
    );
    assert_eq!(parse_rustc_version("rustc 1.80.0").as_deref(), Some("1.80.0"));
}

#[test]
fn parse_rustc_version_bad_prefix() {
    assert!(parse_rustc_version("cargo 1.80.0").is_none());
    assert!(parse_rustc_version("").is_none());
}

#[test]
fn active_version_from_toolchain_output() {
    assert_eq!(active_version_of(TOOLCHAIN), "1.80.0");
    assert_eq!(active_version_of("rustc 1.75.3 (x y)"), "1.75.3");
    assert_eq!(active_version_of("nothing here\nat all"), "");
    assert_eq!(active_version_of(""), "");
    assert_eq!(active_version_of("line with rustc"), "");
    assert_eq!(active_version_of("a\r\nrustc 1.2.3 extra\r\n"), "1.2.3");
}

#[test]
fn latest_without_requirement_picks_first() {
    let records = vec![record("1.2.0", false), record("1.1.0", false), record("1.0.0", false)];
    let (available, newer) = latest(&records, &None).expect("resolves");
    assert_eq!(available, "1.2.0");
    assert!(newer.is_empty());
}

#[test]
fn latest_skips_prerelease_and_yanked() {
    let records = vec![
        record("2.0.0-alpha.1", false),
        record("1.9.0", true),
        record("1.8.0", false),
    ];
    let (available, newer) = latest(&records, &None).expect("resolves");
    assert_eq!(available, "1.8.0");
    assert!(newer.is_empty());
}

#[test]
fn latest_with_requirement_returns_first_match_and_newer_prefix() {
    let records = vec![
        record("3.0.0", false),
        record("2.5.0", false),
        record("1.2.0", false),
        record("1.0.0", false),
    ];
    let (available, newer) = latest(&records, &Some("^1.0".to_string())).expect("resolves");
    assert_eq!(available, "1.2.0");
    assert_eq!(newer, vec!["3.0.0".to_string(), "2.5.0".to_string()]);
}

#[test]
fn latest_no_match_is_not_found() {
    let records = vec![record("2.0.0", false)];
    let err = latest(&records, &Some("^1.0".to_string())).unwrap_err();
    assert_eq!(err.kind, ErrorKind::NotFound);
}

#[test]
fn latest_empty_is_not_found() {
    let records = Vec::new();
    let err = latest(&records, &None).unwrap_err();
    assert_eq!(err.kind, ErrorKind::NotFound);
}

#[test]
fn latest_invalid_requirement_is_parse_error() {
    let records = vec![record("1.0.0", false)];
    let err = latest(&records, &Some("not a requirement".to_string())).unwrap_err();
    assert_eq!(err.kind, ErrorKind::Parse);
}

#[test]
fn latest_invalid_version_is_response_error() {
    let records = vec![record("one.two", false)];
    let err = latest(&records, &None).unwrap_err();
    assert_eq!(err.kind, ErrorKind::Response);
}

#[test]
fn scenario_unpinned_outdated() {
    let entries = vec![entry("foo 1.0.0 (registry+https://x) ", None)];
    let reg = vec![registry("foo", &["1.2.0", "1.1.0", "1.0.0"])];
    let crates = Crates::from(entries, TOOLCHAIN, &reg).expect("loads");
    let all = crates.crates();
    assert_eq!(all.len(), 1);
    let c = all[0];
    assert_eq!(c.name, "foo");
    assert_eq!(c.kind, Kind::External);
    assert_eq!(c.installed, "1.0.0");
    assert_eq!(c.available, "1.2.0");
    assert!(c.outdated);
    assert!(c.newer.is_empty());
    assert_eq!(crates.outdated().len(), 1);
    assert_eq!(crates.outdated_pinned().len(), 0);
}

#[test]
fn scenario_pinned_newer_versions() {
    let entries = vec![entry("foo 1.0.0 (registry+https://x)", Some("^1.0"))];
    let reg = vec![registry("foo", &["2.0.0", "1.0.0"])];
    let crates = Crates::from(entries, TOOLCHAIN, &reg).expect("loads");
    let all = crates.crates();
    assert_eq!(all.len(), 1);
    let c = all[0];
    assert_eq!(c.available, "1.0.0");
    assert_eq!(c.newer, vec!["2.0.0".to_string()]);
    assert!(!c.outdated);
    assert!(!c.outdated_rust);
    assert_eq!(crates.outdated().len(), 0);
    assert_eq!(crates.outdated_pinned().len(), 1);
}

#[test]
fn scenario_malformed_key_collected_others_succeed() {
    let entries = vec![
        entry("foo (bad)", None),
        entry("bar 1.0.0 (registry+https://x)", None),
    ];
    let reg = vec![registry("bar", &["1.0.0"])];
    let errors = Crates::from(entries, TOOLCHAIN, &reg).unwrap_err();
    assert_eq!(errors.len(), 1);
    assert_eq!(errors[0].kind, ErrorKind::Parse);
    assert!(errors[0].detail.starts_with("foo (bad)"));

    let good = vec![entry("bar 1.0.0 (registry+https://x)", None)];
    let crates = Crates::from(good, TOOLCHAIN, &reg).expect("valid records load");
    assert_eq!(crates.crates().len(), 1);
}

#[test]
fn crates_from() {
    let entries = vec![
        entry("alpha 1.0.0 (registry+https://x)", None),
        entry("local 0.1.0 (path+file:///src/local)", None),
        entry("tool 2.0.0 (git+https://github.com/u/tool#abc123)", None),
    ];
    let reg = vec![registry("alpha", &["1.0.0"])];
    let installed = Crates::from(entries, TOOLCHAIN, &reg).expect("loads");
    assert!(!installed.is_empty());
    let all = installed.crates();
    assert_eq!(all.len(), 3);
    let outdated = installed.outdated();
    assert!(outdated.is_empty());
    for c in &all {
        println!("{},{}", c.name, c.installed);
    }
    assert_eq!(all[0].name, "alpha");
    assert_eq!(all[1].name, "local");
    assert_eq!(all[1].kind, Kind::Local);
    assert_eq!(all[2].kind, Kind::Git);
}

#[test]
fn crates_from_include() {
    let entries = vec![
        entry("alpha 1.0.0 (registry+https://x)", None),
        entry("tau 1.0.0 (registry+https://x)", None),
        entry("theta 2.0.0 (registry+https://x)", None),
    ];
    let reg = vec![
        registry("alpha", &["1.0.0"]),
        registry("tau", &["1.1.0", "1.0.0"]),
        registry("theta", &["2.0.0"]),
    ];
    let patterns = vec!["^t".to_string()];
    let installed = Crates::from_include(entries, &patterns, TOOLCHAIN, &reg).expect("loads");
    let all = installed.crates();
    assert_eq!(all.len(), 2);
    assert_eq!(all[0].name, "tau");
    assert_eq!(all[1].name, "theta");
    let outdated = installed.outdated();
    assert_eq!(outdated.len(), 1);
    assert_eq!(outdated[0].name, "tau");
    assert_eq!(outdated[0].available, "1.1.0");
}

#[test]
fn invalid_include_pattern_is_fatal() {
    let entries = vec![entry("alpha 1.0.0 (registry+https://x)", None)];
    let reg = vec![registry("alpha", &["1.0.0"])];
    let patterns = vec!["[".to_string()];
    let errors = Crates::from_include(entries, &patterns, TOOLCHAIN, &reg).unwrap_err();
    assert_eq!(errors.len(), 1);
    assert_eq!(errors[0].kind, ErrorKind::Pattern);
}

#[test]
fn missing_registry_data_is_response_error() {
    let entries = vec![entry("alpha 1.0.0 (registry+https://x)", None)];
    let reg: Vec<RegistryEntry> = Vec::new();
    let errors = Crates::from(entries, TOOLCHAIN, &reg).unwrap_err();
    assert_eq!(errors.len(), 1);
    assert_eq!(errors[0].kind, ErrorKind::Response);
    assert!(errors[0].detail.starts_with("alpha"));
}

#[test]
fn failed_fetch_is_response_error() {
    let entries = vec![entry("alpha 1.0.0 (registry+https://x)", None)];
    let reg = vec![RegistryEntry {
        name: "alpha".to_string(),
        outcome: Err("connection refused".to_string()),
    }];
    let errors = Crates::from(entries, TOOLCHAIN, &reg).unwrap_err();
    assert_eq!(errors.len(), 1);
    assert_eq!(errors[0].kind, ErrorKind::Response);
    assert_eq!(errors[0].detail, "alpha: connection refused");
}

#[test]
fn local_and_git_never_outdated() {
    let entries = vec![
        entry("local 0.1.0 (path+file:///src/local)", None),
        entry("tool 2.0.0 (git+https://github.com/u/tool#abc123)", None),
    ];
    let reg: Vec<RegistryEntry> = Vec::new();
    let crates = Crates::from(entries, TOOLCHAIN, &reg).expect("loads");
    for c in crates.crates() {
        assert!(!c.outdated);
        assert_eq!(c.available, "");
    }
    assert!(crates.outdated().is_empty());
    assert!(crates.external().is_empty());
}

#[test]
fn load_twice_is_identical() {
    let build = || {
        (
            vec![
                entry("alpha 1.0.0 (registry+https://x)", Some("^1.0")),
                entry("tool 2.0.0 (git+https://github.com/u/tool#abc123)", None),
            ],
            vec![registry("alpha", &["2.0.0", "1.1.0", "1.0.0"])],
        )
    };
    let (e1, r1) = build();
    let (e2, r2) = build();
    let a = Crates::from(e1, TOOLCHAIN, &r1).expect("loads");
    let b = Crates::from(e2, TOOLCHAIN, &r2).expect("loads");
    assert_eq!(a, b);
    let ca = a.crates();
    let cb = b.crates();
    for i in 0..ca.len() {
        assert_eq!(ca[i].update_command(false), cb[i].update_command(false));
        assert_eq!(ca[i].update_command(true), cb[i].update_command(true));
    }
}

fn sample_external_crate() -> Crate {
    let mut info = raw(Some("^1.0"));
    info.features = vec!["serde".to_string(), "cli".to_string()];
    info.no_default_features = true;
    let c = Crate::classify("foo 1.0.0 (registry+https://x)", &info, "1.81.0").expect("classifies");
    assert!(c.outdated_rust);
    c
}

#[test]
fn update_command_tokens() {
    let c = sample_external_crate();
    assert_eq!(
        c.update_command(false),
        vec![
            "cargo".to_string(),
            "install".to_string(),
            "--no-default-features".to_string(),
            "-F".to_string(),
            "serde,cli".to_string(),
            "--version".to_string(),
            "^1.0".to_string(),
            "--profile".to_string(),
            "release".to_string(),
            "--target".to_string(),
            "x86_64-unknown-linux-gnu".to_string(),
            "--force".to_string(),
            "foo".to_string(),
        ]
    );
}

#[test]
fn update_command_pinned_omits_version() {
    let c = sample_external_crate();
    let toks = c.update_command(true);
    assert!(!toks.contains(&"--version".to_string()));
    assert!(toks.contains(&"--no-default-features".to_string()));
    assert_eq!(toks.last().map(|s| s.as_str()), Some("foo"));
}

#[test]
fn update_command_git_repository_and_bins() {
    let mut info = raw(None);
    info.bins = vec!["tool".to_string(), "tool-extra".to_string()];
    let c = Crate::classify(
        "tool 2.0.0 (git+https://github.com/u/tool#abc123)",
        &info,
        "1.80.0",
    )
    .expect("classifies");
    assert!(!c.outdated_rust);
    assert_eq!(
        c.update_command(false),
        vec![
            "cargo".to_string(),
            "install".to_string(),
            "--profile".to_string(),
            "release".to_string(),
            "--target".to_string(),
            "x86_64-unknown-linux-gnu".to_string(),
            "--git".to_string(),
            "https://github.com/u/tool".to_string(),
            "tool".to_string(),
            "tool-extra".to_string(),
        ]
    );
}

#[test]
fn update_command_round_trip() {
    let c = sample_external_crate();
    let toks = c.update_command(false);
    let parts = parse_update_command(&toks).expect("parses back");
    assert_eq!(parts.no_default_features, c.no_default_features);
    assert_eq!(parts.features, c.features);
    assert_eq!(parts.version_req, c.version_req);
    assert_eq!(parts.profile, c.profile);
    assert_eq!(parts.target, c.target);
    assert_eq!(parts.force, c.outdated_rust);
    assert_eq!(parts.name.as_deref(), Some("foo"));
    assert!(parts.git_url.is_none());
    assert!(parts.bins.is_empty());
}

#[test]
fn update_command_round_trip_git() {
    let mut info = raw(None);
    info.bins = vec!["tool".to_string(), "tool-extra".to_string()];
    let c = Crate::classify(
        "tool 2.0.0 (git+https://github.com/u/tool#abc123)",
        &info,
        "1.80.0",
    )
    .expect("classifies");
    let toks = c.update_command(false);
    let parts = parse_update_command(&toks).expect("parses back");
    assert_eq!(parts.git_url.as_deref(), Some("https://github.com/u/tool"));
    assert_eq!(parts.bins, c.bins);
    assert!(parts.name.is_none());
    assert_eq!(parts.profile, c.profile);
    assert_eq!(parts.target, c.target);
}

#[test]
fn toolchain_unknown_never_flags_stale() {
    let entries = vec![entry("alpha 1.0.0 (registry+https://x)", None)];
    let reg = vec![registry("alpha", &["1.0.0"])];
    let crates = Crates::from(entries, "unrecognized output", &reg).expect("loads");
    assert_eq!(crates.active_version, "");
    for c in crates.crates() {
        assert!(!c.outdated_rust);
    }
    assert!(crates.outdated_rust().is_empty());
}

#[test]
fn stale_compiler_flagged_and_forced() {
    let entries = vec![entry("alpha 1.0.0 (registry+https://x)", None)];
    let reg = vec![registry("alpha", &["1.0.0"])];
    let toolchain = "stable (default)\nrustc 1.81.0 (fedcba 2024-09-01)\n";
    let crates = Crates::from(entries, toolchain, &reg).expect("loads");
    assert_eq!(crates.active_version, "1.81.0");
    let all = crates.crates();
    assert!(all[0].outdated_rust);
    assert!(all[0].update_command(false).contains(&"--force".to_string()));
    assert_eq!(crates.outdated_rust().len(), 1);
}

#[test]
fn join_and_split_commas() {
    let parts = vec!["a".to_string(), "b".to_string(), "c".to_string()];
    let joined = join_commas(&parts);
    assert_eq!(joined, "a,b,c");
    assert_eq!(split_commas(&joined), parts);
    assert_eq!(join_commas(&Vec::new()), "");
    assert_eq!(split_commas("x"), vec!["x".to_string()]);
}

#[test]
fn expanduser_plain_paths_pass_through() {
    assert_eq!(expanduser("/tmp/config.json").as_deref(), Some("/tmp/config.json"));
    assert_eq!(expanduser("relative/path").as_deref(), Some("relative/path"));
}

#[test]
fn expanduser_tilde_expands_to_home() {
    if let Some(expanded) = expanduser("~/.cargo/.crates2.json") {
        assert!(!expanded.starts_with('~'));
        assert!(expanded.ends_with("/.cargo/.crates2.json"));
    }
}

#[test]
fn parse_update_command_rejects_other_shapes() {
    let toks: Vec<String> = vec!["cargo".to_string(), "build".to_string()];
    assert!(parse_update_command(&toks).is_none());
    let toks: Vec<String> = vec!["cargo".to_string()];
    assert!(parse_update_command(&toks).is_none());
    // A value token owed after a flag but missing.
    let toks: Vec<String> = vec!["cargo".to_string(), "install".to_string(), "-F".to_string()];
    assert!(parse_update_command(&toks).is_none());
    // Trailing junk after the name.
    let toks: Vec<String> = vec![
        "cargo".to_string(),
        "install".to_string(),
        "--profile".to_string(),
        "release".to_string(),
        "--target".to_string(),
        "t".to_string(),
        "foo".to_string(),
        "junk".to_string(),
    ];
    assert!(parse_update_command(&toks).is_none());
}

#[test]
fn kind_default_is_external() {
    assert_eq!(Kind::default(), Kind::External);
    assert_eq!(
        cargo_list::ALL_KINDS.to_vec(),
        vec![Kind::Local, Kind::Git, Kind::External]
    );
}
