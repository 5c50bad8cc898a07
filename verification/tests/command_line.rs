use fluxora_provenance::cli::{
    dispatch, failure_line, generated_line, parse_command_line, verified_line, Options, Request,
    USAGE,
};
use fluxora_provenance::failure::Error;
use fluxora_provenance::manifest::{BuildInfo, Manifest, Profile, Subject, SCHEMA};

fn args(list: &[&str]) -> Vec<String> {
    list.iter().map(|s| s.to_string()).collect()
}

fn asked(list: &[&str]) -> Request {
    parse_command_line(&args(list))
}

fn refused(problem: &str) -> Request {
    Request::Refused(format!("fluxora-provenance: {problem}\n\n{USAGE}"))
}

fn options(dir: &str) -> Options {
    Options {
        release_dir: dir.to_string(),
        manifest: None,
        workspace_root: None,
        target: "wasm32v1-none".to_string(),
    }
}

#[test]
fn commands_are_told_apart() {
    assert_eq!(asked(&[]), Request::Refused(USAGE.to_string()));
    for word in ["-h", "--help", "help"] {
        assert_eq!(asked(&[word]), Request::Usage);
    }
    assert_eq!(asked(&["generate", "d"]), Request::Generate(options("d")));
    assert_eq!(asked(&["verify", "d"]), Request::Verify(options("d")));
    assert_eq!(asked(&["sign", "d"]), refused("unknown command 'sign'"));
    assert!(USAGE.starts_with("fluxora-provenance — wasm provenance for Fluxora contract releases\n\nUsage:\n  fluxora-provenance generate <release-dir>"));
    assert!(USAGE.ends_with("  1  generation or verification failed\n  2  usage error\n"));
}

#[test]
fn options_are_read() {
    let full = Options {
        release_dir: "d".into(),
        manifest: Some("m".into()),
        workspace_root: Some("w=x".into()),
        target: "t".into(),
    };
    assert_eq!(
        asked(&["verify", "--manifest", "m", "--workspace-root=w=x", "d", "--target", "t"]),
        Request::Verify(full)
    );
    // The later of two counts, and a value may look like an option.
    let mut later = options("d");
    later.target = "--help".into();
    assert_eq!(
        asked(&["generate", "--target=a", "--target", "--help", "d"]),
        Request::Generate(later)
    );
    let mut empty = options("d");
    empty.manifest = Some("".into());
    assert_eq!(asked(&["generate", "d", "--manifest="]), Request::Generate(empty));
    // Only an option is taken apart at an equals sign.
    assert_eq!(asked(&["generate", "d=e"]), Request::Generate(options("d=e")));
    assert_eq!(asked(&["verify", "=e"]), Request::Verify(options("=e")));
    assert_eq!(dispatch(&args(&["out=1"]), true), Request::Generate(options("out=1")));
}

#[test]
fn a_value_may_stand_in_the_same_argument() {
    for key in ["--manifest", "--workspace-root", "--target"] {
        for value in ["x", "", "a=b", "-h"] {
            let inline = dispatch(&args(&["d", &format!("{key}={value}")]), true);
            let apart = dispatch(&args(&["d", key, value]), true);
            assert_eq!(inline, apart, "{key} {value}");
        }
    }
}

#[test]
fn what_cannot_be_done_is_refused() {
    assert_eq!(asked(&["generate"]), refused("missing <release-dir>"));
    assert_eq!(
        asked(&["generate", "d", "--manifest"]),
        refused("option '--manifest' requires a value")
    );
    assert_eq!(asked(&["verify", "--force", "d"]), refused("unknown option '--force'"));
    assert_eq!(asked(&["verify", "-x=1", "d"]), refused("unknown option '-x'"));
    assert_eq!(asked(&["verify", "d", "e"]), refused("unexpected argument 'e'"));
    assert_eq!(asked(&["verify", "d", "-h", "e", "f"]), Request::Usage);
    assert_eq!(asked(&["verify", "help"]), Request::Verify(options("help")));
}

#[test]
fn runs_end_with_a_line() {
    let manifest = Manifest {
        schema: SCHEMA.to_string(),
        subject: vec![
            Subject {
                name: "a".into(),
                sha256: "1".into(),
            };
            12
        ],
        build: BuildInfo {
            build_type: "".into(),
            target: "wasm32v1-none".into(),
            profile: Profile { values: vec![] },
            git_revision: "0123456789abcdef".into(),
            git_ref: None,
            git_dirty: false,
            toolchain_channel: None,
            rustc: "".into(),
            cargo: "".into(),
            soroban_sdk: "".into(),
            host: "".into(),
            started_on: "".into(),
        },
    };
    assert_eq!(
        generated_line(&manifest),
        "fluxora-provenance: wrote https://slsa.dev/provenance/v1.0 for 12 artifact(s), target wasm32v1-none, git 01234567"
    );
    let mut short = manifest.clone();
    short.build.git_revision = "äb".into();
    assert!(generated_line(&short).ends_with(", git äb"));
    assert_eq!(
        verified_line(2),
        "fluxora-provenance: verified 2 artifact(s) against the manifest"
    );
    assert_eq!(
        failure_line(&Error::SdkVersionNotFound),
        "fluxora-provenance: FAILED: soroban-sdk not found in Cargo.lock"
    );
}
