use googlepicz::packaging::{
    artifact_copy, artifact_path, build_release, bundle_licenses, checksum_line, checksums_text, command_outcome,
    deb_file_name, dmg_file_path, ensure_tool, expected_installer, find_deb, hex_encode,
    installer_check, installer_tools, join, linux_package_command, linux_sign_commands,
    macos_installer_commands, package_extension, platform_name, project_root, required_tools,
    setup_file_path, spawn_failure, verify_artifact_names, verify_installer_tools,
    verify_metadata_package_name, version_parts, windows_installer_commands, workspace_version,
    CommandSpec, PackagingError, TargetOs,
};

fn cmd(program: &str, args: &[&str]) -> CommandSpec {
    CommandSpec { program: program.into(), args: args.iter().map(|a| a.to_string()).collect() }
}

#[test]
fn test_bundle_licenses() {
    let c = bundle_licenses();
    assert_eq!(
        c,
        cmd("cargo", &["bundle-licenses", "--format", "json", "--output", "licenses.json"])
    );
    let tools = required_tools(&c);
    assert_eq!(tools, vec!["cargo-bundle-licenses".to_string(), "cargo".to_string()]);
    // with the tools present the step goes ahead; a missing plugin is named with its hint
    assert!(ensure_tool(&tools[0], true).is_ok());
    assert_eq!(
        ensure_tool(&tools[0], false),
        Err(PackagingError::MissingCommand(
            "cargo-bundle-licenses (install with `cargo install cargo-bundle-licenses`)".into()
        ))
    );
}

#[test]
fn test_build_release() {
    let c = build_release();
    assert_eq!(c, cmd("cargo", &["build", "--release"]));
    let tools = required_tools(&c);
    assert_eq!(tools, vec!["cargo".to_string()]);
    assert!(ensure_tool(&tools[0], true).is_ok());
    assert_eq!(ensure_tool(&tools[0], false), Err(PackagingError::MissingCommand("cargo".into())));
}

#[test]
fn tools_checked_before_commands() {
    let deb = linux_package_command("1.2.3");
    assert_eq!(required_tools(&deb), vec!["cargo-deb".to_string(), "cargo".to_string()]);
    assert_eq!(
        required_tools(&bundle_licenses()),
        vec!["cargo-bundle-licenses".to_string(), "cargo".to_string()]
    );
    assert_eq!(required_tools(&build_release()), vec!["cargo".to_string()]);
    assert_eq!(required_tools(&cmd("hdiutil", &["create"])), vec!["hdiutil".to_string()]);
}

#[test]
fn ensure_tool_hints() {
    assert!(ensure_tool("cargo-deb", true).is_ok());
    assert_eq!(
        ensure_tool("cargo-deb", false).unwrap_err(),
        PackagingError::MissingCommand("cargo-deb (install with `cargo install cargo-deb`)".into())
    );
    assert_eq!(
        ensure_tool("hdiutil", false).unwrap_err().message(),
        "Missing Command: Xcode command line tools (install Xcode CLI tools)"
    );
    assert_eq!(ensure_tool("zip", false).unwrap_err(), PackagingError::MissingCommand("zip".into()));
}

#[test]
fn command_outcomes() {
    assert!(command_outcome("cargo", Some(0), "warning").is_ok());
    assert_eq!(
        command_outcome("cargo", Some(101), "  error: no\n").unwrap_err(),
        PackagingError::CommandError("cargo exited with code 101: error: no".into())
    );
    assert_eq!(
        command_outcome("makensis", Some(-1), " \n\t").unwrap_err(),
        PackagingError::CommandError("makensis exited with code -1".into())
    );
    assert_eq!(
        command_outcome("hdiutil", None, "").unwrap_err(),
        PackagingError::CommandError("hdiutil exited with code signal".into())
    );
    assert_eq!(
        spawn_failure("cargo", "not found"),
        PackagingError::CommandError("Failed to execute cargo: not found".into())
    );
}

#[test]
fn test_create_installer_macos_mock() {
    let plain = macos_installer_commands("", &None);
    assert_eq!(
        plain,
        vec![
            cmd("cargo", &["bundle", "--release"]),
            cmd(
                "hdiutil",
                &[
                    "create",
                    "-volname",
                    "GooglePicz",
                    "-srcfolder",
                    "target/release/bundle/osx/GooglePicz.app",
                    "-ov",
                    "-format",
                    "UDZO",
                    "target/release/GooglePicz.dmg",
                ],
            ),
        ]
    );
    let signed = macos_installer_commands("test", &Some(("me@example.com".into(), "pw".into())));
    assert_eq!(signed.len(), 9);
    assert_eq!(
        signed[1],
        cmd("codesign", &["--deep", "--force", "-s", "test", "target/release/bundle/osx/GooglePicz.app"])
    );
    assert_eq!(signed[5], cmd("codesign", &["--verify", "target/release/GooglePicz.dmg"]));
    assert_eq!(signed[8], cmd("xcrun", &["stapler", "validate", "target/release/GooglePicz.dmg"]));
    assert_eq!(dmg_file_path("0.1.0"), "target/release/GooglePicz-0.1.0.dmg");
}

#[test]
fn test_create_installer_windows_mock() {
    let plain = windows_installer_commands("1.2.3", &None);
    assert_eq!(
        plain,
        vec![cmd(
            "makensis",
            &[
                "/DAPP_VERSION_MAJOR=1",
                "/DAPP_VERSION_MINOR=2",
                "/DAPP_VERSION_PATCH=3",
                "packaging/installer.nsi",
            ],
        )]
    );
    let signed = windows_installer_commands("0.1.0", &Some(("C:/dummy.pfx".into(), "pw".into())));
    assert_eq!(signed.len(), 5);
    assert_eq!(signed[2], cmd("signtool", &["verify", "/pa", "target\\release\\googlepicz.exe"]));
    assert_eq!(
        signed[4],
        cmd("signtool", &["verify", "/pa", "target/windows/GooglePicz-0.1.0-Setup.exe"])
    );
    let empty_cert = windows_installer_commands("0.1.0", &Some(("".into(), "pw".into())));
    assert_eq!(empty_cert.len(), 1);
    assert_eq!(setup_file_path("0.1.0"), "target/windows/GooglePicz-0.1.0-Setup.exe");
}

#[test]
fn test_create_installer_linux_mock() {
    assert_eq!(linux_package_command("0.1.0"), cmd("cargo", &["deb", "--deb-version", "0.1.0"]));
    assert!(linux_sign_commands("", "x.deb").is_empty());
    assert_eq!(
        linux_sign_commands("KEY", "target/debian/x.deb"),
        vec![
            cmd("dpkg-sig", &["--sign", "builder", "-k", "KEY", "target/debian/x.deb"]),
            cmd("dpkg-sig", &["--verify", "target/debian/x.deb"]),
        ]
    );
    assert_eq!(deb_file_name("0.1.0"), "GooglePicz-0.1.0.deb");
    let names = vec![".deb".to_string(), "notes.txt".to_string(), "dummy.deb".to_string(), "b.deb".to_string()];
    assert_eq!(find_deb(&names), Some(2));
    assert_eq!(find_deb(&vec!["a.debx".to_string()]), None);
}

#[test]
fn version_parts_default_to_zero() {
    assert_eq!(version_parts("1.2.3"), ("1".into(), "2".into(), "3".into()));
    assert_eq!(version_parts("4"), ("4".into(), "0".into(), "0".into()));
    assert_eq!(version_parts("1.2.3.4"), ("1".into(), "2".into(), "3".into()));
    assert_eq!(version_parts(""), ("".into(), "0".into(), "0".into()));
}

#[test]
fn platform_and_extension() {
    assert_eq!(platform_name(TargetOs::Linux), "linux");
    assert_eq!(platform_name(TargetOs::Macos), "macos");
    assert_eq!(platform_name(TargetOs::Windows), "windows");
    assert_eq!(platform_name(TargetOs::Other), "unknown");
    assert_eq!(package_extension(TargetOs::Linux, &None), "deb");
    assert_eq!(package_extension(TargetOs::Linux, &Some("rpm".into())), "rpm");
    assert_eq!(package_extension(TargetOs::Macos, &None), "dmg");
    assert_eq!(package_extension(TargetOs::Windows, &None), "exe");
    assert_eq!(package_extension(TargetOs::Other, &None), "");
}

#[test]
fn test_verify_artifact_names() {
    let path = artifact_path("/work/googlepicz", "0.1.0", TargetOs::Linux, &None);
    assert_eq!(path, "/work/googlepicz/target/GooglePicz-0.1.0-linux.deb");
    assert!(verify_artifact_names(&path, true).is_ok());
    assert_eq!(
        verify_artifact_names(&path, false).unwrap_err(),
        PackagingError::Other("Missing artifact: \"/work/googlepicz/target/GooglePicz-0.1.0-linux.deb\"".into())
    );
    assert_eq!(join("a/", "b"), "a/b");
    assert_eq!(join("", "b"), "b");
    assert_eq!(join("a", "/b"), "/b");
}

#[test]
fn installer_locations() {
    assert_eq!(
        expected_installer(TargetOs::Linux, "/r", "1.0"),
        Some("/r/GooglePicz-1.0.deb".to_string())
    );
    assert_eq!(
        expected_installer(TargetOs::Macos, "/r", "1.0"),
        Some("/r/target/release/GooglePicz-1.0.dmg".to_string())
    );
    assert_eq!(expected_installer(TargetOs::Other, "/r", "1.0"), None);
    assert!(installer_check("/r/x", false, true).is_ok());
    assert_eq!(
        installer_check("/r/x", false, false).unwrap_err(),
        PackagingError::Other("Expected installer \"/r/x\" not found".into())
    );
}

#[test]
fn test_write_checksums() {
    let line = checksum_line(b"test", "GooglePicz-0.1.0-linux.deb");
    assert!(line.contains("GooglePicz-0.1.0-linux.deb"));
    assert_eq!(
        line,
        "9f86d081884c7d659a2feaa0c55ad015a3bf4f1b2b0b822cd15d6c15b0f00a08  GooglePicz-0.1.0-linux.deb"
    );
    assert_eq!(hex_encode(&[0, 15, 255]), "000fff");
    assert_eq!(checksums_text(&vec!["a".into(), "b".into()]), "a\nb\n");
    assert_eq!(checksums_text(&vec![]), "\n");
}

#[test]
fn test_workspace_version_and_metadata() {
    let manifest = "[workspace]\nmembers = []\n[workspace.package]\nversion = \"0.1.0\"\n";
    assert_eq!(workspace_version(manifest).unwrap(), "0.1.0");
    assert_eq!(
        workspace_version("[package]\nname = \"x\"\n").unwrap_err(),
        PackagingError::Other("workspace.package.version not found".into())
    );
    assert!(matches!(workspace_version("= broken"), Err(PackagingError::Other(m)) if m.starts_with("Failed to parse Cargo.toml: ")));
    let metadata = br#"{"packages":[{"name":"api_client"},{"name":"googlepicz"}]}"#;
    assert!(verify_metadata_package_name("googlepicz", metadata).is_ok());
    assert_eq!(
        verify_metadata_package_name("other", metadata).unwrap_err(),
        PackagingError::Other("Package 'other' not found".into())
    );
    assert_eq!(
        verify_metadata_package_name("x", br#"{"workspace_root":"/"}"#).unwrap_err(),
        PackagingError::Other("No packages field in metadata".into())
    );
    assert!(matches!(verify_metadata_package_name("x", b"not json"), Err(PackagingError::Other(m)) if m.starts_with("Failed to parse cargo metadata: ")));
}

#[test]
fn test_get_project_root() {
    let candidates = vec![
        ("/w/app".to_string(), Some("[package]\nname = \"app\"\n".to_string())),
        ("/w".to_string(), Some("[workspace]\nmembers = [\"app\"]\n".to_string())),
        ("/".to_string(), None),
    ];
    assert_eq!(project_root(&candidates, "/w/app"), "/w");
    assert_eq!(project_root(&vec![("/x".to_string(), None)], "/x"), "/x");
}

#[test]
fn test_verify_installer_tools_mock_skips_missing() {
    let tools = installer_tools(TargetOs::Linux);
    assert_eq!(tools, vec!["cargo-deb".to_string(), "cargo".to_string()]);
    assert!(verify_installer_tools(true, &tools, &vec![false, false]).is_ok());
    assert_eq!(
        verify_installer_tools(false, &tools, &vec![true, false]).unwrap_err(),
        PackagingError::MissingCommand("cargo".into())
    );
    assert!(verify_installer_tools(false, &tools, &vec![true, true]).is_ok());
}

#[test]
fn installer_is_published_as_the_artifact() {
    let (from, to) = artifact_copy(TargetOs::Linux, "/r", "1.0", &Some("deb".to_string())).unwrap();
    assert_eq!(from, "/r/GooglePicz-1.0.deb");
    assert_eq!(to, "/r/target/GooglePicz-1.0-linux.deb");
    let (from, to) = artifact_copy(TargetOs::Macos, "/r", "1.0", &None).unwrap();
    assert_eq!(from, "/r/target/release/GooglePicz-1.0.dmg");
    assert_eq!(to, "/r/target/GooglePicz-1.0-macos.dmg");
    let (from, to) = artifact_copy(TargetOs::Windows, "/r", "1.0", &None).unwrap();
    assert_eq!(from, "/r/target/windows/GooglePicz-1.0-Setup.exe");
    assert_eq!(to, "/r/target/GooglePicz-1.0-windows.exe");
    assert_eq!(artifact_copy(TargetOs::Other, "/r", "1.0", &None), None);
}
