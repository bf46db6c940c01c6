use watch_bells::release::{
    check_release_artifact_sizes,
    check_latest_not_newer, check_release_artifact_names, validate_macos_binary,
    validate_universal_macos_binary, format_file_names, icns_entries, info_plist,
    lipo_architectures, parse_command, parse_optional_path, parse_release_version,
    release_artifacts, validate_release_version, IcnsWriter, XtaskCommand, XtaskError,
};

fn strings(items: &[&str]) -> Vec<String> {
    items.iter().map(|s| s.to_string()).collect()
}

fn complete_release() -> Vec<String> {
    release_artifacts().iter().map(|artifact| artifact.file_name.to_string()).collect()
}

#[test]
fn release_artifact_filenames_are_stable() {
    let filenames = release_artifacts()
        .iter()
        .map(|artifact| artifact.file_name)
        .collect::<Vec<_>>();
    assert_eq!(
        filenames,
        [
            "watch-bells-macos-universal.zip",
            "watch-bells-windows-x86_64.exe",
            "watch-bells-linux-x86_64",
            "watch-bells-linux-aarch64",
        ]
    );
}

#[test]
fn release_versions_are_safe_stable_semantic_versions() {
    for valid in ["0.7.0", "10.20.300"] {
        validate_release_version(valid).expect("valid semantic version");
    }
    for invalid in ["v0.7.0", "0.7", "0.7.0-beta.1", "01.2.3", "../0.7.0"] {
        assert!(validate_release_version(invalid).is_err(), "{invalid}");
    }
}

#[test]
fn publication_requires_the_exact_complete_release_set_before_mutating() {
    let mut names = complete_release();
    names.retain(|name| name != "watch-bells-linux-aarch64");
    names.push("unexpected.txt".to_string());

    let error = check_release_artifact_names(&names)
        .expect_err("incomplete release must fail")
        .message();

    assert!(error.contains("watch-bells-linux-aarch64"));
    assert!(error.contains("unexpected.txt"));
}

#[test]
fn publication_does_not_replace_a_newer_latest_release() {
    let release = parse_release_version("0.7.0").expect("valid version");
    let error = check_latest_not_newer("0.8.0\n", &release, "0.7.0")
        .expect_err("release downgrade must fail")
        .message();

    assert!(error.contains("newer latest release 0.8.0"));
}

#[test]
fn plist_preserves_bundle_metadata_and_architecture_minimums() {
    let plist = info_plist("0.7.0").expect("write plist");

    assert!(plist.contains("com.euanreid.watch-bells"));
    assert!(plist.contains("<key>LSUIElement</key>"));
    assert!(plist.contains("<string>0.7.0</string>"));
    assert!(plist.contains("<key>arm64</key>\n      <string>11.0.0</string>"));
    assert!(plist.contains("<key>x86_64</key>\n      <string>10.13.0</string>"));
}

#[test]
fn icns_writer_emits_a_complete_big_endian_container() {
    let mut writer = IcnsWriter::new();
    for entry in icns_entries() {
        writer
            .add_image(entry.icon_type, entry.file_name, entry.file_name.as_bytes())
            .expect("add test icon");
    }
    let icns = writer.finish();

    assert_eq!(&icns[0..4], b"icns");
    assert_eq!(
        u32::from_be_bytes(icns[4..8].try_into().expect("read ICNS size")) as usize,
        icns.len()
    );
    for icon_type in [
        b"icp4", b"ic11", b"icp5", b"icp6", b"ic12", b"ic07", b"ic13", b"ic08", b"ic14", b"ic09",
        b"ic10",
    ] {
        assert!(
            icns.windows(4).any(|window| window == icon_type),
            "missing {} entry",
            String::from_utf8_lossy(icon_type)
        );
    }
}

#[test]
fn release_version_numbers_are_read_exactly() {
    assert_eq!(parse_release_version("10.20.300").unwrap(), [10, 20, 300]);
    assert_eq!(parse_release_version("0.0.0").unwrap(), [0, 0, 0]);
    assert_eq!(
        parse_release_version("18446744073709551615.0.1").unwrap(),
        [u64::MAX, 0, 1]
    );
    assert!(parse_release_version("18446744073709551616.0.1").is_err());
    assert!(parse_release_version("1..2").is_err());
    assert!(parse_release_version("1.2.3.4").is_err());
    assert!(parse_release_version("").is_err());
    assert!(parse_release_version("1.2.٣").is_err());
    let message = validate_release_version("0.7").unwrap_err().message();
    assert_eq!(
        message,
        "release version must be a stable semantic version such as 0.7.0, got 0.7"
    );
}

#[test]
fn a_complete_release_set_is_accepted_in_any_order() {
    let mut names = complete_release();
    names.reverse();
    assert!(check_release_artifact_names(&names).is_ok());
}

#[test]
fn release_set_refusal_lists_missing_and_unexpected_names_sorted() {
    let names = strings(&["zz.txt", "watch-bells-linux-x86_64", "aa.txt"]);
    let error = check_release_artifact_names(&names).unwrap_err();
    match &error {
        XtaskError::ArtifactSet { missing, unexpected } => {
            assert_eq!(
                missing,
                &strings(&[
                    "watch-bells-linux-aarch64",
                    "watch-bells-macos-universal.zip",
                    "watch-bells-windows-x86_64.exe",
                ])
            );
            assert_eq!(unexpected, &strings(&["aa.txt", "zz.txt"]));
        }
        other => panic!("unexpected error {other:?}"),
    }
    assert_eq!(
        error.message(),
        "release artifact set is incomplete or unexpected; missing: watch-bells-linux-aarch64, \
         watch-bells-macos-universal.zip, watch-bells-windows-x86_64.exe; unexpected: aa.txt, zz.txt"
    );
}

#[test]
fn equal_or_older_latest_release_may_be_replaced() {
    let release = parse_release_version("0.7.0").unwrap();
    assert!(check_latest_not_newer("0.7.0", &release, "0.7.0").is_ok());
    assert!(check_latest_not_newer("  0.6.9\n", &release, "0.7.0").is_ok());
    assert!(check_latest_not_newer("0.10.0", &release, "0.7.0").is_err());
    match check_latest_not_newer("garbage", &release, "0.7.0") {
        Err(XtaskError::InvalidVersion { version }) => assert_eq!(version, "garbage"),
        other => panic!("unexpected result {other:?}"),
    }
}

#[test]
fn file_name_lists_read_none_when_empty() {
    assert_eq!(format_file_names(&Vec::new()), "none");
    assert_eq!(format_file_names(&strings(&["a", "b"])), "a, b");
}

#[test]
fn lipo_listings_become_sorted_architecture_sets() {
    let archs = lipo_architectures("bin", "x86_64 arm64\n").unwrap();
    assert_eq!(archs, strings(&["arm64", "x86_64"]));
    assert!(validate_universal_macos_binary("bin", archs.clone()).is_ok());
    let error = validate_macos_binary("bin", "arm64", archs).unwrap_err();
    assert_eq!(error.message(), "bin must contain only arm64; found arm64, x86_64");
    let thin = lipo_architectures("bin", "  arm64  ").unwrap();
    assert!(validate_macos_binary("bin", "arm64", thin.clone()).is_ok());
    assert_eq!(
        validate_universal_macos_binary("bin", thin).unwrap_err().message(),
        "bin must contain arm64 and x86_64; found arm64"
    );
    assert_eq!(
        lipo_architectures("bin", " \n\t").unwrap_err().message(),
        "lipo reported no architectures for bin"
    );
}

#[test]
fn command_lines_select_commands() {
    match parse_command(strings(&["validate-release", "--source", "dist"])).unwrap() {
        XtaskCommand::ValidateRelease { source } => assert_eq!(source, "dist"),
        other => panic!("unexpected command {other:?}"),
    }
    match parse_command(strings(&[
        "publish-downloads", "--source", "s", "--website", "w", "--version", "0.7.0",
    ]))
    .unwrap()
    {
        XtaskCommand::PublishDownloads { source, website, version } => {
            assert_eq!((source.as_str(), website.as_str(), version.as_str()), ("s", "w", "0.7.0"))
        }
        other => panic!("unexpected command {other:?}"),
    }
    match parse_command(strings(&[
        "package-macos", "--arm64-binary", "a", "--x86_64-binary", "x", "--out", "o",
        "--version", "0.7.0",
    ]))
    .unwrap()
    {
        XtaskCommand::PackageMacos { icon, .. } => assert_eq!(icon, "assets/icon.png"),
        other => panic!("unexpected command {other:?}"),
    }
    assert!(matches!(parse_command(Vec::new()).unwrap(), XtaskCommand::Help));
    assert!(matches!(parse_command(strings(&["help"])).unwrap(), XtaskCommand::Help));
    assert_eq!(
        parse_command(strings(&["deploy"])).unwrap_err().message(),
        "unknown xtask command: deploy"
    );
    assert_eq!(
        parse_command(strings(&["validate-release"])).unwrap_err().message(),
        "missing --source value"
    );
    assert_eq!(
        parse_command(strings(&["validate-release", "--out", "x"])).unwrap_err().message(),
        "expected --source, got --out"
    );
    assert_eq!(
        parse_command(strings(&["validate-release", "--source"])).unwrap_err().message(),
        "missing value after --source"
    );
    assert_eq!(
        parse_command(strings(&["validate-release", "--source", "d", "extra"]))
            .unwrap_err()
            .message(),
        "unknown argument: extra"
    );
}

#[test]
fn icon_flag_takes_either_form_and_the_last_wins() {
    assert_eq!(parse_optional_path(strings(&[]), "--icon").unwrap(), None);
    assert_eq!(
        parse_optional_path(strings(&["--icon", "a.png"]), "--icon").unwrap(),
        Some("a.png".to_string())
    );
    assert_eq!(
        parse_optional_path(strings(&["--icon=a.png", "--icon", "b.png"]), "--icon").unwrap(),
        Some("b.png".to_string())
    );
    assert_eq!(
        parse_optional_path(strings(&["--icon"]), "--icon").unwrap_err().message(),
        "missing value after --icon"
    );
    assert_eq!(
        parse_optional_path(strings(&["--iconx"]), "--icon").unwrap_err().message(),
        "unknown argument: --iconx"
    );
}

#[test]
fn icns_refuses_empty_images_and_counts_every_byte() {
    let mut writer = IcnsWriter::new();
    assert_eq!(
        writer.add_image(*b"icp4", "icon_16x16.png", &[]).unwrap_err().message(),
        "generated icon icon_16x16.png is empty"
    );
    writer.add_image(*b"icp4", "icon_16x16.png", &[1, 2, 3]).unwrap();
    let icns = writer.finish();
    assert_eq!(icns, vec![b'i', b'c', b'n', b's', 0, 0, 0, 19, b'i', b'c', b'p', b'4', 0, 0, 0, 11, 1, 2, 3]);
}

#[test]
fn an_empty_release_file_is_refused_with_its_label_and_path() {
    let paths: [String; 4] = [
        "dist/a.zip".to_string(),
        "dist/b.exe".to_string(),
        "dist/c".to_string(),
        "dist/d".to_string(),
    ];
    assert!(check_release_artifact_sizes(&paths, &[1, 2, 3, 4]).is_ok());
    let error = check_release_artifact_sizes(&paths, &[7, 0, 0, 4]).unwrap_err();
    assert_eq!(error.message(), "Windows x86-64 executable is empty at dist/b.exe");
    let error = check_release_artifact_sizes(&paths, &[7, 5, 9, 0]).unwrap_err();
    assert_eq!(error.message(), "Linux ARM64 binary is empty at dist/d");
}
