use fluxora_provenance::json_doc::{JsonMember, JsonNode};
use fluxora_provenance::packaging::{
    cargo_metadata, cdylib_target_name, find_package, is_not_publishable, packages, wasm_basename,
    MetadataOutcome, EXPECTED_PACKAGE_NAME, EXPECTED_TARGET_NAME, EXPECTED_WASM_BASENAME,
};
use fluxora_provenance::profile_settings::{check_setting, section};
use fluxora_provenance::text::contains_text;

const METADATA: &str = r#"{
  "packages": [
    {"name": "fluxora-archival-probe", "publish": null, "targets": []},
    {
      "name": "fluxora-stream",
      "version": "1.0.0",
      "publish": [],
      "targets": [
        {"kind": ["test"], "name": "event_ordering_failed_transfer"},
        {"kind": ["cdylib", "rlib"], "crate_types": ["cdylib"], "name": "fluxora_stream"},
        {"kind": ["cdylib"], "name": "another"}
      ]
    }
  ],
  "version": 1
}"#;

fn printed(stdout: &str) -> MetadataOutcome {
    MetadataOutcome::Finished {
        success: true,
        status: "exit status: 0".into(),
        stdout: stdout.as_bytes().to_vec(),
        stderr: Vec::new(),
    }
}

fn metadata() -> JsonNode {
    cargo_metadata(&printed(METADATA)).unwrap()
}

#[test]
fn package_name_is_canonical() {
    let meta = metadata();
    let pkgs = packages(&meta).unwrap();
    assert!(find_package(pkgs, EXPECTED_PACKAGE_NAME).is_some());
}

#[test]
fn lib_target_name_is_canonical() {
    let meta = metadata();
    let pkg = find_package(packages(&meta).unwrap(), EXPECTED_PACKAGE_NAME).unwrap();
    let actual_name = cdylib_target_name(pkg).unwrap();
    assert_eq!(actual_name, EXPECTED_TARGET_NAME);
}

#[test]
fn package_is_not_publishable() {
    let meta = metadata();
    let pkgs = packages(&meta).unwrap();
    let pkg = find_package(pkgs, EXPECTED_PACKAGE_NAME).unwrap();
    assert!(is_not_publishable(pkg));
    assert!(!is_not_publishable(&pkgs[0]));
    let with = |value: JsonNode| {
        JsonNode::Object(vec![JsonMember {
            key: "publish".into(),
            value,
        }])
    };
    assert!(is_not_publishable(&with(JsonNode::Bool(false))));
    assert!(!is_not_publishable(&with(JsonNode::Bool(true))));
    assert!(!is_not_publishable(&with(JsonNode::List(vec![JsonNode::Text("crates-io".into())]))));
    assert!(!is_not_publishable(&JsonNode::Null));
}

#[test]
fn wasm_artifact_basename_is_canonical() {
    let meta = metadata();
    let pkg = find_package(packages(&meta).unwrap(), EXPECTED_PACKAGE_NAME).unwrap();
    let actual_target_name = cdylib_target_name(pkg).unwrap();
    let derived_wasm_basename = wasm_basename(actual_target_name);
    assert_eq!(derived_wasm_basename, EXPECTED_WASM_BASENAME);
    assert_ne!(wasm_basename("fluxora_streams"), EXPECTED_WASM_BASENAME);
}

#[test]
fn comparison_is_exact_not_prefix_match() {
    // Simulate a mutated name that starts with the canonical prefix.
    let mutated = format!("{EXPECTED_PACKAGE_NAME}s"); // e.g. "fluxora-streams"
    assert_ne!(
        mutated.as_str(),
        EXPECTED_PACKAGE_NAME,
        "comparison logic accepted a name that is merely a prefix of the canonical name",
    );

    let mutated_upper = EXPECTED_PACKAGE_NAME.to_uppercase();
    assert_ne!(
        mutated_upper.as_str(),
        EXPECTED_PACKAGE_NAME,
        "comparison logic is case-insensitive when it must be exact",
    );

    let meta = metadata();
    let pkgs = packages(&meta).unwrap();
    assert_eq!(find_package(pkgs, &mutated), None);
    assert_eq!(find_package(pkgs, &mutated_upper), None);
    assert_eq!(find_package(pkgs, "fluxora-strea"), None);

    println!("packaging::comparison_is_exact_not_prefix_match  exact-match-logic=verified  ✓");
}

#[test]
fn metadata_that_cannot_be_read_is_reported() {
    assert_eq!(
        cargo_metadata(&MetadataOutcome::NotStarted("gone".into())),
        Err("failed to spawn `cargo metadata` — is Cargo in PATH?: gone".to_string())
    );
    let failed = MetadataOutcome::Finished {
        success: false,
        status: "exit status: 101".into(),
        stdout: Vec::new(),
        stderr: vec![b'e', 0xff],
    };
    assert_eq!(
        cargo_metadata(&failed),
        Err("`cargo metadata` exited with status exit status: 101\nstderr:\ne\u{fffd}".to_string())
    );
    let problem = serde_json::from_str::<serde_json::Value>("{").unwrap_err();
    assert_eq!(
        cargo_metadata(&printed("{")),
        Err(format!(
            "`cargo metadata` output was not valid JSON — this is a Cargo bug: {problem}"
        ))
    );
    assert_eq!(packages(&cargo_metadata(&printed("{}")).unwrap()), None);
    assert_eq!(packages(&cargo_metadata(&printed("[1, true, null]")).unwrap()), None);
    assert_eq!(cdylib_target_name(&JsonNode::Null), None);
}

// ---------------------------------------------------------------------------
// Settings in TOML text
// ---------------------------------------------------------------------------

const WORKSPACE_MANIFEST: &str = r#"[workspace]
members = ["contracts/*"]

[profile.release]
opt-level = "z"
overflow-checks = true
debug = 0
strip = "symbols"
debug-assertions = false
panic = "abort"
codegen-units = 1
lto = true

[profile.release-with-logs]
inherits = "release"
debug-assertions = true
"#;

const STREAM_MANIFEST: &str = r#"[package]
name = "fluxora-stream"

[features]
testutils = ["soroban-sdk/testutils"]

[dependencies]
soroban-sdk = { workspace = true }

[dev-dependencies]
soroban-sdk = { workspace = true, features = ["testutils"] }
"#;

#[test]
fn workspace_release_profile_is_the_production_profile() {
    let release = section(WORKSPACE_MANIFEST, "[profile.release]").unwrap();

    check_setting(&release, "opt-level", "\"z\"").unwrap();
    check_setting(&release, "overflow-checks", "true").unwrap();
    check_setting(&release, "debug", "0").unwrap();
    check_setting(&release, "strip", "\"symbols\"").unwrap();
    check_setting(&release, "debug-assertions", "false").unwrap();
    check_setting(&release, "panic", "\"abort\"").unwrap();
    check_setting(&release, "codegen-units", "1").unwrap();
    check_setting(&release, "lto", "true").unwrap();

    let with_logs = section(WORKSPACE_MANIFEST, "[profile.release-with-logs]").unwrap();
    check_setting(&with_logs, "inherits", "\"release\"").unwrap();
    check_setting(&with_logs, "debug-assertions", "true").unwrap();
}

#[test]
fn production_build_does_not_enable_test_features() {
    let features = section(STREAM_MANIFEST, "[features]").unwrap();
    let dependencies = section(STREAM_MANIFEST, "[dependencies]").unwrap();
    let dev_dependencies = section(STREAM_MANIFEST, "[dev-dependencies]").unwrap();

    assert!(!features.lines().any(|line| line.trim().starts_with("default")));
    assert!(contains_text(&features, "testutils = [\"soroban-sdk/testutils\"]"));
    assert!(!contains_text(&dependencies, "testutils"));
    assert!(contains_text(&dev_dependencies, "features = [\"testutils\"]"));
}

#[test]
fn sections_end_at_the_next_header() {
    assert_eq!(section("a\n[x]\nk = 1\n[y]\nk = 2\n", "[x]"), Some("\nk = 1".into()));
    assert_eq!(section("a\n[x]\nk = 1\n[y]\nk = 2\n", "[y]"), Some("\nk = 2\n".into()));
    assert_eq!(section("[x]é[y]", "[x]"), Some("é[y]".into()));
    assert_eq!(section("[x]", "[x]"), Some("".into()));
    assert_eq!(section("[x", "[x]"), None);
    assert_eq!(section("[x]1[x]2", "[x]"), Some("1[x]2".into()));
    assert_eq!(
        check_setting("\n  lto = false\n", "lto", "true"),
        Err("missing release invariant `lto = true` in:\n\n  lto = false\n".to_string())
    );
    assert_eq!(check_setting("\r\n\t lto = true \r\n", "lto", "true"), Ok(()));
    assert!(check_setting("x.lto = true", "lto", "true").is_err());
}
