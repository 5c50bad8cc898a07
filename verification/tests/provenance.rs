use fluxora_provenance::artifacts::{
    collect_artifacts, find_artifacts, hash_files, is_wasm_name, list_wasm_files, shasums_text,
    temporary_name, DirFile,
};
use fluxora_provenance::build_inputs::{
    collect_metadata, git_metadata, host_triple, run_git, tool_version, BuildReadings,
    CommandOutcome,
};
use fluxora_provenance::digest::{digest_text, sha256_hex};
use fluxora_provenance::failure::{Error, IoFailure};
use fluxora_provenance::manifest::{
    opt_string, profile_text, Manifest, Profile, ProfileValue, Subject, BUILD_TYPE, DEFAULT_TARGET,
    MANIFEST_FILENAME, SCHEMA, SHASUMS_FILENAME,
};
use fluxora_provenance::release::{
    check_completeness, check_field, check_inputs, check_integrity, generate, generate_at,
    validate_release_dir, verify, Generated, ManifestReading, ReleaseDir, Verified,
};
use fluxora_provenance::toml_doc::{TomlField, TomlNode};
use fluxora_provenance::workspace::{
    channel_in_document, document_has_workspace, find_workspace_root, load_toml,
    profile_from_workspace, profile_in_document, sdk_in_document, soroban_sdk_version,
    toolchain_channel,
};

const FAKE_WORKSPACE: &str = r#"
[workspace]
resolver = "2"
members = ["contracts/*"]

[workspace.package]
version = "1.0.0"
edition = "2021"

[profile.release]
opt-level = "z"
overflow-checks = true
debug = 0
strip = "symbols"
debug-assertions = false
panic = "abort"
codegen-units = 1
lto = true
"#;

const FAKE_LOCK: &str = r#"
[[package]]
name = "soroban-sdk"
version = "27.0.5"
"#;

const FAKE_TOOLCHAIN: &str = r#"
[toolchain]
channel = "1.97.1"
targets = ["wasm32v1-none"]
"#;

const HEAD: &str = "3f786850e387550fdab836ed7e6dc881de23001b";
const RUSTC: &str = "rustc 1.97.1 (abcdef012 2026-07-01)";
const MANIFEST_PATH: &str = "target/wasm32v1-none/release/provenance.json";

/// A release directory and the workspace around it, held in memory.
struct Scratch {
    workspace: String,
    files: Vec<(String, Vec<u8>)>,
    status: String,
}

fn scratch_repo() -> Scratch {
    Scratch {
        workspace: FAKE_WORKSPACE.to_string(),
        files: Vec::new(),
        status: String::new(),
    }
}

fn printed(text: &str) -> CommandOutcome {
    CommandOutcome::Finished {
        success: true,
        status: "exit status: 0".to_string(),
        stdout: text.as_bytes().to_vec(),
    }
}

fn failed(code: u32) -> CommandOutcome {
    CommandOutcome::Finished {
        success: false,
        status: format!("exit status: {code}"),
        stdout: Vec::new(),
    }
}

fn io(path: &str, source: &str) -> IoFailure {
    IoFailure {
        path: path.to_string(),
        source: source.to_string(),
    }
}

impl Scratch {
    fn write_wasm(&mut self, name: &str, content: &[u8]) {
        self.files.retain(|(n, _)| n != name);
        self.files.push((name.to_string(), content.to_vec()));
    }

    fn remove(&mut self, name: &str) {
        self.files.retain(|(n, _)| n != name);
    }

    fn dir(&self) -> ReleaseDir {
        let mut files: Vec<DirFile> = self
            .files
            .iter()
            .map(|(name, content)| DirFile {
                name: name.as_bytes().to_vec(),
                is_file: true,
                contents: Ok(content.clone()),
            })
            .collect();
        files.push(DirFile {
            name: b"deps".to_vec(),
            is_file: false,
            contents: Ok(Vec::new()),
        });
        files.push(DirFile {
            name: b"directory.wasm".to_vec(),
            is_file: false,
            contents: Ok(Vec::new()),
        });
        files.push(DirFile {
            name: MANIFEST_FILENAME.as_bytes().to_vec(),
            is_file: true,
            contents: Ok(Vec::new()),
        });
        ReleaseDir {
            path: "target/wasm32v1-none/release".to_string(),
            exists: true,
            is_directory: true,
            files: Ok(files),
        }
    }

    fn readings(&self) -> BuildReadings {
        BuildReadings {
            git_head: printed(&format!("{HEAD}\n")),
            git_branch: printed("main\n"),
            git_status: printed(&self.status),
            toolchain_file: Some(Ok(FAKE_TOOLCHAIN.to_string())),
            rustc: printed(&format!("{RUSTC}\n")),
            cargo: printed("cargo 1.97.1\n"),
            lock_file: Ok(FAKE_LOCK.to_string()),
            rustc_verbose: printed("rustc 1.97.1\nbinary: rustc\nhost: x86_64-unknown-linux-gnu\r\nrelease: 1.97.1\n"),
            workspace_file: Ok(self.workspace.clone()),
        }
    }

    fn generate(&self) -> Result<Generated, Error> {
        generate(self.dir(), Ok(self.readings()), DEFAULT_TARGET)
    }

    fn verify(&self, manifest: &Manifest) -> Result<Verified, Error> {
        verify(
            self.dir(),
            MANIFEST_PATH,
            ManifestReading::Parsed(manifest.clone()),
            Ok(self.readings()),
            DEFAULT_TARGET,
        )
    }
}

fn sample_wasm() -> Vec<u8> {
    b"\x00asm\x01\x00\x00\x00fluxora-sample-contract-bytes".to_vec()
}

#[test]
fn generate_writes_manifest_and_shasums() {
    let mut s = scratch_repo();
    s.write_wasm("fluxora_stream.wasm", &sample_wasm());

    let made = s.generate().unwrap();
    let manifest = &made.manifest;

    assert_eq!(manifest.schema, SCHEMA);
    assert_eq!(manifest.build.build_type, BUILD_TYPE);
    assert_eq!(manifest.build.target, DEFAULT_TARGET);
    assert_eq!(manifest.build.git_revision, HEAD);
    assert_eq!(manifest.build.soroban_sdk, "27.0.5");
    assert_eq!(manifest.build.toolchain_channel.as_deref(), Some("1.97.1"));
    let setting = |key: &str| {
        manifest
            .build
            .profile
            .values
            .iter()
            .find(|v| v.key == key)
            .map(|v| v.json.as_str())
    };
    assert_eq!(setting("opt-level"), Some("\"z\""));
    assert_eq!(setting("lto"), Some("true"));
    assert_eq!(manifest.build.rustc, RUSTC);
    assert_eq!(manifest.build.cargo, "cargo 1.97.1");
    assert_eq!(manifest.build.host, "x86_64-unknown-linux-gnu");
    assert_eq!(manifest.build.git_ref.as_deref(), Some("main"));
    assert_eq!(manifest.build.started_on.len(), 20);

    assert_eq!(manifest.subject.len(), 1);
    assert_eq!(manifest.subject[0].name, "fluxora_stream.wasm");
    assert_eq!(manifest.subject[0].sha256, sha256_hex(&sample_wasm()));

    assert_eq!(SHASUMS_FILENAME, "SHASUMS");
    assert_eq!(
        made.shasums,
        format!(
            "{hash}  fluxora_stream.wasm\n",
            hash = sha256_hex(&sample_wasm())
        )
    );
}

#[test]
fn workspace_root_is_discovered_from_the_release_dir() {
    let manifests = [
        None,
        Some("[package]\nname = \"x\"\n".to_string()),
        Some("not toml [".to_string()),
        Some(FAKE_WORKSPACE.to_string()),
        Some(FAKE_WORKSPACE.to_string()),
    ];
    assert_eq!(find_workspace_root(&manifests), Some(3));
    assert_eq!(find_workspace_root(&manifests[..3]), None);
    assert_eq!(find_workspace_root(&[]), None);
}

#[test]
fn verify_passes_on_matching_artifacts() {
    let mut s = scratch_repo();
    s.write_wasm("fluxora_stream.wasm", &sample_wasm());
    let made = s.generate().unwrap();
    assert_eq!(s.verify(&made.manifest).unwrap().count, 1);
}

#[test]
fn verify_covers_every_contract_in_one_manifest() {
    let mut s = scratch_repo();
    s.write_wasm("fluxora_stream.wasm", &sample_wasm());
    s.write_wasm("fluxora_archival_probe.wasm", b"\x00asm probe bytes");
    let manifest = s.generate().unwrap().manifest;

    let names: Vec<&str> = manifest.subject.iter().map(|s| s.name.as_str()).collect();
    assert_eq!(
        names,
        ["fluxora_archival_probe.wasm", "fluxora_stream.wasm"]
    );
    assert_eq!(s.verify(&manifest).unwrap().count, 2);
}

#[test]
fn verify_rejects_tampered_artifact() {
    let mut s = scratch_repo();
    s.write_wasm("fluxora_stream.wasm", &sample_wasm());
    let manifest = s.generate().unwrap().manifest;

    let mut tampered = sample_wasm();
    tampered[10] ^= 0xff;
    s.write_wasm("fluxora_stream.wasm", &tampered);

    match s.verify(&manifest) {
        Err(Error::HashMismatch {
            name,
            expected,
            actual,
        }) => {
            assert_eq!(name, "fluxora_stream.wasm");
            assert_eq!(expected, sha256_hex(&sample_wasm()));
            assert_eq!(actual, sha256_hex(&tampered));
        }
        other => panic!("expected HashMismatch, got {other:?}"),
    }
}

#[test]
fn verify_rejects_missing_artifact() {
    let mut s = scratch_repo();
    s.write_wasm("fluxora_stream.wasm", &sample_wasm());
    let manifest = s.generate().unwrap().manifest;
    s.remove("fluxora_stream.wasm");

    match s.verify(&manifest) {
        Err(Error::MissingArtifact { name }) => assert_eq!(name, "fluxora_stream.wasm"),
        other => panic!("expected MissingArtifact, got {other:?}"),
    }
}

#[test]
fn verify_rejects_unlisted_artifact() {
    let mut s = scratch_repo();
    s.write_wasm("fluxora_stream.wasm", &sample_wasm());
    let manifest = s.generate().unwrap().manifest;
    s.write_wasm("fluxora_sneaky.wasm", &sample_wasm());

    match s.verify(&manifest) {
        Err(Error::UnlistedArtifact { name }) => assert_eq!(name, "fluxora_sneaky.wasm"),
        other => panic!("expected UnlistedArtifact, got {other:?}"),
    }
}

#[test]
fn generate_rejects_an_empty_release_dir() {
    let s = scratch_repo();
    assert!(matches!(s.generate(), Err(Error::NoWasmArtifacts(_))));
}

#[test]
fn verify_fails_when_the_manifest_is_missing() {
    let mut s = scratch_repo();
    s.write_wasm("fluxora_stream.wasm", &sample_wasm());
    assert!(matches!(
        verify(
            s.dir(),
            MANIFEST_PATH,
            ManifestReading::Missing,
            Ok(s.readings()),
            DEFAULT_TARGET
        ),
        Err(Error::ManifestMissing(_))
    ));
}

#[test]
fn verify_fails_on_an_unparseable_manifest() {
    let mut s = scratch_repo();
    s.write_wasm("fluxora_stream.wasm", &sample_wasm());
    let problem = serde_json::from_str::<serde_json::Value>("not json").unwrap_err();
    assert!(matches!(
        verify(
            s.dir(),
            MANIFEST_PATH,
            ManifestReading::Unparseable(problem.to_string()),
            Ok(s.readings()),
            DEFAULT_TARGET
        ),
        Err(Error::Json(_))
    ));
}

#[test]
fn verify_rejects_a_drifted_git_revision() {
    let mut s = scratch_repo();
    s.write_wasm("fluxora_stream.wasm", &sample_wasm());
    let mut manifest = s.generate().unwrap().manifest;
    manifest.build.git_revision = "0".repeat(40);

    match s.verify(&manifest) {
        Err(Error::MetadataMismatch {
            field,
            recorded,
            actual,
        }) => {
            assert_eq!(field, "git_revision");
            assert_eq!(recorded, "0".repeat(40));
            assert_eq!(actual, HEAD);
        }
        other => panic!("expected MetadataMismatch, got {other:?}"),
    }
}

#[test]
fn verify_rejects_release_profile_drift() {
    let mut s = scratch_repo();
    s.write_wasm("fluxora_stream.wasm", &sample_wasm());
    let manifest = s.generate().unwrap().manifest;

    // Simulate a release-flags change between generate and verify.
    s.workspace = s.workspace.replace("lto = true", "lto = false");

    match s.verify(&manifest) {
        Err(Error::MetadataMismatch { field, .. }) => assert_eq!(field, "profile"),
        other => panic!("expected profile MetadataMismatch, got {other:?}"),
    }
}

#[test]
fn generate_records_whether_the_tree_is_dirty() {
    let mut s = scratch_repo();
    s.write_wasm("fluxora_stream.wasm", &sample_wasm());
    s.status = "?? target/\n".to_string();
    let made = s.generate().unwrap();
    assert!(made.manifest.build.git_dirty);
    assert_eq!(
        made.warnings,
        ["fluxora-provenance: warning: working tree is dirty — provenance records uncommitted changes"]
    );

    s.status = String::new();
    let made = s.generate().unwrap();
    assert!(!made.manifest.build.git_dirty);
    assert!(made.warnings.is_empty());
}

#[test]
fn generate_is_deterministic_except_the_timestamp() {
    let mut s = scratch_repo();
    s.write_wasm("fluxora_stream.wasm", &sample_wasm());
    s.write_wasm("fluxora_archival_probe.wasm", b"\x00asm probe bytes");

    let a = s.generate().unwrap().manifest;
    let b = s.generate().unwrap().manifest;

    assert_eq!(a.subject, b.subject);
    let mut a_ = a.clone();
    let mut b_ = b.clone();
    a_.build.started_on.clear();
    b_.build.started_on.clear();
    assert_eq!(a_, b_);
}

#[test]
fn the_order_of_the_directory_does_not_matter() {
    let mut s = scratch_repo();
    for name in ["b.wasm", "a.wasm", "B.wasm", "a.b.wasm", "c.wasm"] {
        s.write_wasm(name, name.as_bytes());
    }
    let first = generate_at(
        s.dir(),
        Ok(s.readings()),
        DEFAULT_TARGET,
        "2030-01-01T00:00:00Z".to_string(),
    )
    .unwrap();
    s.files.reverse();
    let second = generate_at(
        s.dir(),
        Ok(s.readings()),
        DEFAULT_TARGET,
        "2030-01-01T00:00:00Z".to_string(),
    )
    .unwrap();
    assert_eq!(first, second);
    let names: Vec<&str> = first.manifest.subject.iter().map(|s| s.name.as_str()).collect();
    assert_eq!(names, ["B.wasm", "a.b.wasm", "a.wasm", "b.wasm", "c.wasm"]);
    assert_eq!(first.manifest.build.started_on, "2030-01-01T00:00:00Z");
}

#[test]
fn only_names_with_the_extension_are_wasm() {
    assert!(is_wasm_name(b"a.wasm"));
    assert!(is_wasm_name(b"..wasm"));
    assert!(is_wasm_name(&[0xff, b'.', b'w', b'a', b's', b'm']));
    assert!(!is_wasm_name(b".wasm"));
    assert!(!is_wasm_name(b"wasm"));
    assert!(!is_wasm_name(b"a.wasm.d"));
    assert!(!is_wasm_name(b"a.WASM"));
    assert!(!is_wasm_name(b"awasm"));
    assert!(!is_wasm_name(b""));
    let entry = |name: &[u8], is_file: bool| DirFile {
        name: name.to_vec(),
        is_file,
        contents: Ok(name.to_vec()),
    };
    let listed = list_wasm_files(vec![
        entry(b"z.wasm", true),
        entry(b"dir.wasm", false),
        entry(b"readme", true),
        entry(b"a.wasm", true),
    ]);
    let names: Vec<&[u8]> = listed.iter().map(|f| f.name.as_slice()).collect();
    assert_eq!(names, [b"a.wasm".as_slice(), b"z.wasm".as_slice()]);
}

#[test]
fn a_name_that_is_not_utf8_is_replaced_in_part() {
    let files = [DirFile {
        name: vec![b'a', 0xff, b'.', b'w', b'a', b's', b'm'],
        is_file: true,
        contents: Ok(b"abc".to_vec()),
    }];
    let list = hash_files(&files).unwrap();
    assert_eq!(list[0].name, "a\u{fffd}.wasm");
    assert_eq!(
        list[0].sha256,
        "ba7816bf8f01cfea414140de5dae2223b00361a396177a9cb410ff61f20015ad"
    );
}

#[test]
fn digests_are_hexadecimal() {
    assert_eq!(
        sha256_hex(b""),
        "e3b0c44298fc1c149afbf4c8996fb92427ae41e4649b934ca495991b7852b855"
    );
    assert_eq!(digest_text(&[0x00, 0x0f, 0xa5, 0xff]), "000fa5ff");
    assert_ne!(digest_text(&[1, 2]), digest_text(&[0x12]));
}

#[test]
fn artifacts_are_collected_or_the_first_failure_is_given() {
    let unreadable = |name: &str| DirFile {
        name: name.as_bytes().to_vec(),
        is_file: true,
        contents: Err(io(name, "denied")),
    };
    assert_eq!(
        collect_artifacts("d", Err(io("d", "gone"))),
        Err(Error::Io {
            path: "d".into(),
            source: "gone".into()
        })
    );
    assert_eq!(
        find_artifacts(Err(io("d", "gone"))),
        Err(Error::Io {
            path: "d".into(),
            source: "gone".into()
        })
    );
    assert_eq!(
        collect_artifacts("d", Ok(vec![unreadable("z.wasm"), unreadable("b.wasm")])),
        Err(Error::Io {
            path: "b.wasm".into(),
            source: "denied".into()
        })
    );
    assert_eq!(
        collect_artifacts("d", Ok(vec![unreadable("readme")])),
        Err(Error::NoWasmArtifacts("d".into()))
    );
    assert_eq!(find_artifacts(Ok(vec![unreadable("readme")])), Ok(vec![]));
    let two = [
        Subject {
            name: "a".into(),
            sha256: "1".into(),
        },
        Subject {
            name: "b".into(),
            sha256: "2".into(),
        },
    ];
    assert_eq!(shasums_text(&two), "1  a\n2  b\n");
    assert_eq!(shasums_text(&[]), "");
    assert_eq!(temporary_name(Some("provenance.json")), ".provenance.json.tmp");
    assert_eq!(temporary_name(None), ".out.tmp");
}

#[test]
fn the_release_path_must_be_a_directory() {
    let mut s = scratch_repo();
    s.write_wasm("fluxora_stream.wasm", &sample_wasm());
    let manifest = s.generate().unwrap().manifest;
    let mut dir = s.dir();
    dir.is_directory = false;
    assert_eq!(
        validate_release_dir(&dir),
        Err(Error::NotADirectory("target/wasm32v1-none/release".into()))
    );
    dir.exists = false;
    assert_eq!(
        verify(
            dir,
            MANIFEST_PATH,
            ManifestReading::Parsed(manifest),
            Ok(s.readings()),
            DEFAULT_TARGET
        ),
        Err(Error::ReleaseDirMissing("target/wasm32v1-none/release".into()))
    );
    assert_eq!(validate_release_dir(&s.dir()), Ok(()));
}

#[test]
fn failures_come_in_their_order() {
    let mut s = scratch_repo();
    let no_root = || Err(Error::WorkspaceRootNotFound("d".into()));
    // The root comes before the artifacts, the artifacts before the inputs.
    assert_eq!(
        generate(s.dir(), no_root(), DEFAULT_TARGET),
        Err(Error::WorkspaceRootNotFound("d".into()))
    );
    let mut broken = s.readings();
    broken.git_head = failed(128);
    assert!(matches!(
        generate(s.dir(), Ok(broken), DEFAULT_TARGET),
        Err(Error::NoWasmArtifacts(_))
    ));
    s.write_wasm("a.wasm", b"a");
    let manifest = s.generate().unwrap().manifest;
    // When verifying, the artifacts come before the root.
    s.write_wasm("b.wasm", b"b");
    assert_eq!(
        verify(
            s.dir(),
            MANIFEST_PATH,
            ManifestReading::Parsed(manifest.clone()),
            no_root(),
            DEFAULT_TARGET
        ),
        Err(Error::UnlistedArtifact {
            name: "b.wasm".into()
        })
    );
    s.remove("b.wasm");
    assert_eq!(
        verify(
            s.dir(),
            MANIFEST_PATH,
            ManifestReading::Parsed(manifest.clone()),
            no_root(),
            DEFAULT_TARGET
        ),
        Err(Error::WorkspaceRootNotFound("d".into()))
    );
    assert_eq!(
        verify(
            s.dir(),
            MANIFEST_PATH,
            ManifestReading::Unreadable(io("m", "denied")),
            no_root(),
            DEFAULT_TARGET
        ),
        Err(Error::Io {
            path: "m".into(),
            source: "denied".into()
        })
    );
    let mut dir = s.dir();
    dir.files = Err(io("d", "gone"));
    assert_eq!(
        verify(
            dir,
            MANIFEST_PATH,
            ManifestReading::Parsed(manifest),
            no_root(),
            DEFAULT_TARGET
        ),
        Err(Error::Io {
            path: "d".into(),
            source: "gone".into()
        })
    );
}

#[test]
fn each_recorded_input_is_checked() {
    let mut s = scratch_repo();
    s.write_wasm("a.wasm", b"a");
    let manifest = s.generate().unwrap().manifest;
    let now = collect_metadata(&s.readings()).unwrap();
    let field = |m: &Manifest| match check_inputs(m, &now, DEFAULT_TARGET) {
        Ok(()) => "none",
        Err(Error::MetadataMismatch { field, .. }) => field,
        Err(other) => panic!("{other:?}"),
    };
    assert_eq!(field(&manifest), "none");
    let mut m = manifest.clone();
    m.build.host = "another host".into();
    m.build.started_on = "another time".into();
    m.build.git_dirty = true;
    m.build.git_ref = None;
    m.schema = "another schema".into();
    assert_eq!(field(&m), "none");
    m.build.profile.values[0].json = "0".into();
    assert_eq!(field(&m), "profile");
    m.build.toolchain_channel = None;
    assert_eq!(field(&m), "toolchain_channel");
    m.build.soroban_sdk = "1".into();
    assert_eq!(field(&m), "soroban_sdk");
    m.build.cargo = "1".into();
    assert_eq!(field(&m), "cargo");
    m.build.rustc = "1".into();
    assert_eq!(field(&m), "rustc");
    m.build.git_revision = "1".into();
    assert_eq!(field(&m), "git_revision");
    m.build.target = "wasm32-unknown-unknown".into();
    assert_eq!(field(&m), "target");
    // No channel is not the mark that is shown for it.
    let mut unpinned = now.clone();
    unpinned.toolchain_channel = None;
    let mut m = manifest.clone();
    m.build.toolchain_channel = Some("<none>".into());
    let drifted = Err(Error::MetadataMismatch {
        field: "toolchain_channel",
        recorded: "<none>".into(),
        actual: "<none>".into(),
    });
    assert_eq!(check_inputs(&m, &unpinned, DEFAULT_TARGET), drifted);
    m.build.toolchain_channel = None;
    assert_eq!(check_inputs(&m, &unpinned, DEFAULT_TARGET), Ok(()));
    let mut marked = now.clone();
    marked.toolchain_channel = Some("<none>".into());
    assert_eq!(check_inputs(&m, &marked, DEFAULT_TARGET), drifted);
    assert_eq!(opt_string(&None), "<none>");
    assert_eq!(opt_string(&Some("x".into())), "x");
    assert_eq!(check_field("f", "a", "a"), Ok(()));
}

#[test]
fn a_moved_branch_and_a_dirty_tree_are_only_warned_of() {
    let mut s = scratch_repo();
    s.write_wasm("a.wasm", b"a");
    let mut manifest = s.generate().unwrap().manifest;
    manifest.build.git_ref = Some("release".into());
    manifest.build.git_dirty = true;
    let v = s.verify(&manifest).unwrap();
    assert_eq!(
        v.warnings,
        [
            "fluxora-provenance: warning: git ref drifted (release -> main); the revision is still pinned",
            "fluxora-provenance: warning: provenance records a dirty working tree",
        ]
    );
    manifest.build.git_ref = None;
    manifest.build.git_dirty = false;
    assert!(s.verify(&manifest).unwrap().warnings.is_empty());
}

#[test]
fn artifacts_of_one_name_share_one_place() {
    let subject = |name: &str, sha256: &str| Subject {
        name: name.into(),
        sha256: sha256.into(),
    };
    // Of two files that go by one name, the later one counts.
    let disk = [subject("a", "1"), subject("a", "2")];
    assert_eq!(check_integrity(&[subject("a", "2")], &disk), Ok(()));
    assert_eq!(
        check_integrity(&[subject("a", "1")], &disk),
        Err(Error::HashMismatch {
            name: "a".into(),
            expected: "1".into(),
            actual: "2".into()
        })
    );
    assert_eq!(check_completeness(&[subject("a", "?")], &disk), Ok(()));
    assert_eq!(
        check_completeness(&[subject("b", "?")], &[subject("c", "1"), subject("a", "1")]),
        Err(Error::UnlistedArtifact { name: "a".into() })
    );
}

#[test]
fn workspace_files_are_read() {
    let profile = profile_from_workspace(&Ok(FAKE_WORKSPACE.to_string())).unwrap();
    let keys: Vec<&str> = profile.values.iter().map(|v| v.key.as_str()).collect();
    assert_eq!(
        keys,
        [
            "codegen-units",
            "debug",
            "debug-assertions",
            "lto",
            "opt-level",
            "overflow-checks",
            "panic",
            "strip",
        ]
    );
    assert_eq!(
        profile_text(&profile),
        r#"{"codegen-units":1,"debug":0,"debug-assertions":false,"lto":true,"opt-level":"z","overflow-checks":true,"panic":"abort","strip":"symbols"}"#
    );
    let nested = "[profile.release]\nlto = [1, 2.5, \"x\\\"y\"]\n[profile.release.package.a]\nopt-level = 3\n";
    assert_eq!(
        profile_text(&profile_from_workspace(&Ok(nested.to_string())).unwrap()),
        r#"{"lto":[1,2.5,"x\"y"],"package":{"a":{"opt-level":3}}}"#
    );
    assert_eq!(
        profile_from_workspace(&Ok("[workspace]\n".to_string())),
        Ok(Profile { values: vec![] })
    );
    assert_eq!(
        profile_from_workspace(&Ok("profile = \"release\"\n".to_string())),
        Ok(Profile { values: vec![] })
    );
    assert_eq!(
        profile_from_workspace(&Err(io("Cargo.toml", "denied"))),
        Err(Error::Io {
            path: "Cargo.toml".into(),
            source: "denied".into()
        })
    );
    assert!(matches!(
        profile_from_workspace(&Ok("not toml [".to_string())),
        Err(Error::Toml(_))
    ));
    let quoted = Profile {
        values: vec![ProfileValue {
            key: "a\"\n".into(),
            json: "1".into(),
        }],
    };
    assert_eq!(profile_text(&quoted), "{\"a\\\"\\n\":1}");
    let escaped = Profile {
        values: vec![ProfileValue {
            key: "\\\u{8}\t\u{c}\r\u{0}\u{1f}\u{7f}é/".into(),
            json: "1".into(),
        }],
    };
    assert_eq!(
        profile_text(&escaped),
        "{\"\\\\\\b\\t\\f\\r\\u0000\\u001f\u{7f}é/\":1}"
    );
    // Floats and dates keep what they are on their way into the manifest.
    let typed = "[profile.release]\na = 0.1\nb = 1979-05-27T07:32:00Z\nc = -0.0\nd = nan\ne = 1e300\n";
    assert_eq!(
        profile_text(&profile_from_workspace(&Ok(typed.to_string())).unwrap()),
        r#"{"a":0.1,"b":{"$__toml_private_datetime":"1979-05-27T07:32:00Z"},"c":-0.0,"d":null,"e":1e+300}"#
    );
    let parsed: toml::Value = toml::from_str(typed).unwrap();
    let release = serde_json::to_value(&parsed["profile"]["release"]).unwrap();
    assert_eq!(
        profile_text(&profile_from_workspace(&Ok(typed.to_string())).unwrap()),
        release.to_string()
    );

    assert_eq!(soroban_sdk_version(&Ok(FAKE_LOCK.to_string())), Ok("27.0.5".into()));
    let other = "[[package]]\nname = \"serde\"\nversion = \"1.0.0\"\n";
    for lock in [
        other,
        "version = 4\n",
        "package = 1\n",
        "[[package]]\nname = \"soroban-sdk\"\n",
    ] {
        assert_eq!(
            soroban_sdk_version(&Ok(lock.to_string())),
            Err(Error::SdkVersionNotFound),
            "{lock}"
        );
    }
    assert_eq!(
        soroban_sdk_version(&Ok(format!("{other}{FAKE_LOCK}"))),
        Ok("27.0.5".into())
    );

    assert_eq!(toolchain_channel(&None), Ok(None));
    assert_eq!(
        toolchain_channel(&Some(Ok(FAKE_TOOLCHAIN.to_string()))),
        Ok(Some("1.97.1".into()))
    );
    assert_eq!(
        toolchain_channel(&Some(Ok("[toolchain]\nchannel = 1\n".to_string()))),
        Ok(None)
    );
    assert!(toolchain_channel(&Some(Err(io("t", "denied")))).is_err());
}

#[test]
fn documents_are_read_without_their_text_too() {
    let field = |key: &str, value: TomlNode| TomlField {
        key: key.into(),
        value,
    };
    let table = |key: &str, fields: Vec<TomlField>| field(key, TomlNode::Table(fields));
    let doc_of = |settings: Vec<TomlField>| {
        TomlNode::Table(vec![
            table("profile", vec![table("release", settings)]),
            field("workspace", TomlNode::Integer(0)),
        ])
    };
    let doc = doc_of(vec![
        field("b", TomlNode::Integer(1)),
        field("a", TomlNode::Integer(2)),
        field("b", TomlNode::Integer(3)),
    ]);
    assert!(document_has_workspace(&doc));
    assert!(!document_has_workspace(&TomlNode::Boolean(true)));
    assert_eq!(
        profile_text(&profile_in_document(&doc).unwrap()),
        r#"{"a":2,"b":3}"#
    );
    let every = doc_of(vec![
        field("a", TomlNode::Text("x\"\n".into())),
        field("b", TomlNode::Decimal("1.5".into())),
        field("c", TomlNode::Boolean(false)),
        field("d", TomlNode::List(vec![TomlNode::Integer(-1), TomlNode::Decimal("inf".into())])),
        table("e", vec![field("z", TomlNode::Integer(1)), field("y", TomlNode::Integer(2))]),
    ]);
    assert_eq!(
        profile_text(&profile_in_document(&every).unwrap()),
        r#"{"a":"x\"\n","b":1.5,"c":false,"d":[-1,null],"e":{"y":2,"z":1}}"#
    );
    let broken = doc_of(vec![
        field("a", TomlNode::Integer(1)),
        field("b", TomlNode::Decimal("no".into())),
        field("c", TomlNode::Datetime("never".into())),
    ]);
    assert_eq!(
        profile_in_document(&broken),
        Err(Error::Json("invalid float literal".into()))
    );
    let undated = doc_of(vec![field("c", TomlNode::Datetime("never".into()))]);
    assert!(matches!(profile_in_document(&undated), Err(Error::Json(_))));
    assert_eq!(sdk_in_document(&doc), Err(Error::SdkVersionNotFound));
    assert_eq!(channel_in_document(&doc), None);
    let loaded = load_toml(&Ok("a = \"x\"\n".to_string())).unwrap();
    assert_eq!(loaded.text_at("a"), Some("x".to_string()));
    assert_eq!(loaded.get("b"), None);
}

#[test]
fn command_output_is_read() {
    assert_eq!(run_git(&["rev-parse", "HEAD"], &printed("  abc \n")), Ok("abc".into()));
    assert_eq!(
        run_git(&["rev-parse", "HEAD"], &failed(128)),
        Err(Error::Git("`git rev-parse HEAD` exited with exit status: 128".into()))
    );
    assert_eq!(
        run_git(
            &["status"],
            &CommandOutcome::NotStarted("No such file".into())
        ),
        Err(Error::Git("could not run `git status`: No such file".into()))
    );
    let garbled = CommandOutcome::Finished {
        success: true,
        status: "exit status: 0".into(),
        stdout: vec![b'a', 0xff],
    };
    assert_eq!(
        run_git(&["status"], &garbled),
        Err(Error::Utf8("invalid utf-8 sequence of 1 bytes from index 1".into()))
    );
    assert_eq!(tool_version("rustc", &printed("rustc 1\n")), Ok("rustc 1".into()));
    assert_eq!(
        tool_version("rustc", &failed(1)),
        Err(Error::ToolVersion("rustc".into(), "exit exit status: 1".into()))
    );
    assert_eq!(
        tool_version("cargo", &CommandOutcome::NotStarted("gone".into())),
        Err(Error::ToolVersion("cargo".into(), "gone".into()))
    );
    assert_eq!(host_triple(&printed("a\nhost: x \nhost: y\n")), Ok("x".into()));
    // The exit status does not matter here.
    let host_but_failed = CommandOutcome::Finished {
        success: false,
        status: "exit status: 1".into(),
        stdout: b"host: z".to_vec(),
    };
    assert_eq!(host_triple(&host_but_failed), Ok("z".into()));
    assert_eq!(
        host_triple(&printed("no host\n")),
        Err(Error::HostParse("no host\n".into()))
    );
    assert_eq!(
        host_triple(&CommandOutcome::NotStarted("gone".into())),
        Err(Error::ToolVersion("rustc -vV".into(), "gone".into()))
    );
    assert!(matches!(host_triple(&garbled), Err(Error::Utf8(_))));
    // On a detached head there is no branch, and a failure to name it is none.
    assert_eq!(
        git_metadata(&printed("r\n"), &printed("\n"), &printed("")),
        Ok(("r".into(), None, false))
    );
    assert_eq!(
        git_metadata(&printed("r\n"), &failed(1), &printed(" M f\n")),
        Ok(("r".into(), None, true))
    );
    assert!(git_metadata(&failed(1), &printed("b"), &printed("")).is_err());
    assert!(git_metadata(&printed("r"), &printed("b"), &failed(1)).is_err());
}

#[test]
fn inputs_fail_in_their_order() {
    let s = scratch_repo();
    let mut r = s.readings();
    r.workspace_file = Err(io("Cargo.toml", "e"));
    let text = |r: &BuildReadings| collect_metadata(r).unwrap_err().message();
    assert_eq!(text(&r), "Cargo.toml: e");
    r.rustc_verbose = printed("x\"\n");
    assert_eq!(
        text(&r),
        "could not read the host triple from `rustc -vV`: \"x\\\"\\n\""
    );
    r.lock_file = Ok("".into());
    assert_eq!(text(&r), "soroban-sdk not found in Cargo.lock");
    r.cargo = failed(2);
    assert_eq!(text(&r), "cargo --version failed: exit exit status: 2");
    r.rustc = failed(3);
    assert_eq!(text(&r), "rustc --version failed: exit exit status: 3");
    r.toolchain_file = Some(Err(io("rust-toolchain.toml", "e")));
    assert_eq!(text(&r), "rust-toolchain.toml: e");
    r.git_status = failed(4);
    assert_eq!(text(&r), "git: `git status --porcelain` exited with exit status: 4");
    r.git_head = failed(5);
    assert_eq!(text(&r), "git: `git rev-parse HEAD` exited with exit status: 5");
}

#[test]
fn each_failure_has_its_text() {
    let s = |t: &str| t.to_string();
    let all = [
        (Error::ReleaseDirMissing(s("d")), "release dir does not exist: d"),
        (Error::NotADirectory(s("d")), "release path is not a directory: d"),
        (Error::NoWasmArtifacts(s("d")), "no *.wasm artifacts found in d"),
        (
            Error::WorkspaceRootNotFound(s("d")),
            "could not find a workspace Cargo.toml (with [workspace]) walking up from d",
        ),
        (
            Error::Io {
                path: s("p"),
                source: s("e"),
            },
            "p: e",
        ),
        (Error::Utf8(s("e")), "command output was not valid UTF-8: e"),
        (Error::Toml(s("e")), "TOML parse error: e"),
        (Error::Json(s("e")), "JSON error: e"),
        (Error::Git(s("e")), "git: e"),
        (Error::ToolVersion(s("t"), s("e")), "t --version failed: e"),
        (
            Error::HostParse(s("a\tb")),
            "could not read the host triple from `rustc -vV`: \"a\\tb\"",
        ),
        (Error::SdkVersionNotFound, "soroban-sdk not found in Cargo.lock"),
        (Error::ManifestMissing(s("m")), "provenance manifest not found: m"),
        (
            Error::MissingArtifact { name: s("n") },
            "artifact listed in the manifest is missing from the release dir: n",
        ),
        (
            Error::HashMismatch {
                name: s("n"),
                expected: s("1"),
                actual: s("2"),
            },
            "sha256 mismatch for n: manifest 1 != on-disk 2 (rebuild and regenerate, or investigate before releasing)",
        ),
        (
            Error::UnlistedArtifact { name: s("n") },
            "artifact present in the release dir is not listed in the manifest: n (regenerate provenance so every contract is covered)",
        ),
        (
            Error::MetadataMismatch {
                field: "target",
                recorded: s("a"),
                actual: s("b"),
            },
            "target drifted since provenance was generated: manifest a != current b",
        ),
    ];
    for (error, text) in all {
        assert_eq!(error.message(), text);
    }
}
