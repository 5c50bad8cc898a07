//! What can go wrong with a release, each failure with its own variant and text.
use crate::encoding::{debug_quoted, debug_text};
use crate::text::two;
use vstd::prelude::*;

verus! {

/// A file or directory that could not be read or written.
#[derive(Clone, Debug, PartialEq, Eq)]
pub struct IoFailure {
    pub path: String,
    pub source: String,
}

/// The mathematical value of an `IoFailure`.
#[verifier::ext_equal]
pub struct IoModel {
    pub path: Seq<char>,
    pub source: Seq<char>,
}

impl View for IoFailure {
    type V = IoModel;

    open spec fn view(&self) -> IoModel {
        IoModel { path: self.path@, source: self.source@ }
    }
}

/// A failure of generating or verifying provenance. Paths and the errors of other libraries stand
/// here as they are displayed.
#[derive(Clone, Debug, PartialEq, Eq)]
pub enum Error {
    ReleaseDirMissing(String),
    NotADirectory(String),
    NoWasmArtifacts(String),
    WorkspaceRootNotFound(String),
    Io { path: String, source: String },
    Utf8(String),
    Toml(String),
    Json(String),
    Git(String),
    ToolVersion(String, String),
    HostParse(String),
    SdkVersionNotFound,
    ManifestMissing(String),
    MissingArtifact { name: String },
    HashMismatch { name: String, expected: String, actual: String },
    UnlistedArtifact { name: String },
    MetadataMismatch { field: &'static str, recorded: String, actual: String },
}

/// The mathematical value of an `Error`.
#[verifier::ext_equal]
pub enum ErrorModel {
    ReleaseDirMissing(Seq<char>),
    NotADirectory(Seq<char>),
    NoWasmArtifacts(Seq<char>),
    WorkspaceRootNotFound(Seq<char>),
    Io { path: Seq<char>, source: Seq<char> },
    Utf8(Seq<char>),
    Toml(Seq<char>),
    Json(Seq<char>),
    Git(Seq<char>),
    ToolVersion(Seq<char>, Seq<char>),
    HostParse(Seq<char>),
    SdkVersionNotFound,
    ManifestMissing(Seq<char>),
    MissingArtifact { name: Seq<char> },
    HashMismatch { name: Seq<char>, expected: Seq<char>, actual: Seq<char> },
    UnlistedArtifact { name: Seq<char> },
    MetadataMismatch { field: Seq<char>, recorded: Seq<char>, actual: Seq<char> },
}

impl View for Error {
    type V = ErrorModel;

    open spec fn view(&self) -> ErrorModel {
        match self {
            Error::ReleaseDirMissing(p) => ErrorModel::ReleaseDirMissing(p@),
            Error::NotADirectory(p) => ErrorModel::NotADirectory(p@),
            Error::NoWasmArtifacts(p) => ErrorModel::NoWasmArtifacts(p@),
            Error::WorkspaceRootNotFound(p) => ErrorModel::WorkspaceRootNotFound(p@),
            Error::Io { path, source } => ErrorModel::Io { path: path@, source: source@ },
            Error::Utf8(e) => ErrorModel::Utf8(e@),
            Error::Toml(e) => ErrorModel::Toml(e@),
            Error::Json(e) => ErrorModel::Json(e@),
            Error::Git(e) => ErrorModel::Git(e@),
            Error::ToolVersion(tool, e) => ErrorModel::ToolVersion(tool@, e@),
            Error::HostParse(out) => ErrorModel::HostParse(out@),
            Error::SdkVersionNotFound => ErrorModel::SdkVersionNotFound,
            Error::ManifestMissing(p) => ErrorModel::ManifestMissing(p@),
            Error::MissingArtifact { name } => ErrorModel::MissingArtifact { name: name@ },
            Error::HashMismatch { name, expected, actual } => ErrorModel::HashMismatch {
                name: name@,
                expected: expected@,
                actual: actual@,
            },
            Error::UnlistedArtifact { name } => ErrorModel::UnlistedArtifact { name: name@ },
            Error::MetadataMismatch { field, recorded, actual } => ErrorModel::MetadataMismatch {
                field: field@,
                recorded: recorded@,
                actual: actual@,
            },
        }
    }
}

/// The failure to read or write a file.
pub open spec fn io_error(e: IoModel) -> ErrorModel {
    ErrorModel::Io { path: e.path, source: e.source }
}

/// What is said of a failure.
pub open spec fn error_text(e: ErrorModel) -> Seq<char> {
    match e {
        ErrorModel::ReleaseDirMissing(p) => "release dir does not exist: "@ + p,
        ErrorModel::NotADirectory(p) => "release path is not a directory: "@ + p,
        ErrorModel::NoWasmArtifacts(p) => "no *.wasm artifacts found in "@ + p,
        ErrorModel::WorkspaceRootNotFound(p) =>
            "could not find a workspace Cargo.toml (with [workspace]) walking up from "@ + p,
        ErrorModel::Io { path, source } => path + ": "@ + source,
        ErrorModel::Utf8(e) => "command output was not valid UTF-8: "@ + e,
        ErrorModel::Toml(e) => "TOML parse error: "@ + e,
        ErrorModel::Json(e) => "JSON error: "@ + e,
        ErrorModel::Git(e) => "git: "@ + e,
        ErrorModel::ToolVersion(tool, e) => tool + " --version failed: "@ + e,
        ErrorModel::HostParse(out) => "could not read the host triple from `rustc -vV`: "@
            + debug_quoted(out),
        ErrorModel::SdkVersionNotFound => "soroban-sdk not found in Cargo.lock"@,
        ErrorModel::ManifestMissing(p) => "provenance manifest not found: "@ + p,
        ErrorModel::MissingArtifact { name } =>
            "artifact listed in the manifest is missing from the release dir: "@ + name,
        ErrorModel::HashMismatch { name, expected, actual } => "sha256 mismatch for "@ + name
            + ": manifest "@ + expected + " != on-disk "@ + actual
            + " (rebuild and regenerate, or investigate before releasing)"@,
        ErrorModel::UnlistedArtifact { name } =>
            "artifact present in the release dir is not listed in the manifest: "@ + name
            + " (regenerate provenance so every contract is covered)"@,
        ErrorModel::MetadataMismatch { field, recorded, actual } => field
            + " drifted since provenance was generated: manifest "@ + recorded + " != current "@
            + actual,
    }
}

impl Error {
    /// What is said of the failure.
    pub fn message(&self) -> (r: String)
        ensures
            r@ == error_text(self@),
    {
        match self {
            Error::ReleaseDirMissing(p) => two("release dir does not exist: ", p),
            Error::NotADirectory(p) => two("release path is not a directory: ", p),
            Error::NoWasmArtifacts(p) => two("no *.wasm artifacts found in ", p),
            Error::WorkspaceRootNotFound(p) => two(
                "could not find a workspace Cargo.toml (with [workspace]) walking up from ",
                p,
            ),
            Error::Io { path, source } => two(&two(path, ": "), source),
            Error::Utf8(e) => two("command output was not valid UTF-8: ", e),
            Error::Toml(e) => two("TOML parse error: ", e),
            Error::Json(e) => two("JSON error: ", e),
            Error::Git(e) => two("git: ", e),
            Error::ToolVersion(tool, e) => two(&two(tool, " --version failed: "), e),
            Error::HostParse(out) => two(
                "could not read the host triple from `rustc -vV`: ",
                &debug_text(out),
            ),
            Error::SdkVersionNotFound => "soroban-sdk not found in Cargo.lock".to_string(),
            Error::ManifestMissing(p) => two("provenance manifest not found: ", p),
            Error::MissingArtifact { name } => two(
                "artifact listed in the manifest is missing from the release dir: ",
                name,
            ),
            Error::HashMismatch { name, expected, actual } => {
                let mut r = two("sha256 mismatch for ", name);
                r.append(": manifest ");
                r.append(expected);
                r.append(" != on-disk ");
                r.append(actual);
                r.append(" (rebuild and regenerate, or investigate before releasing)");
                r
            },
            Error::UnlistedArtifact { name } => {
                let mut r = two(
                    "artifact present in the release dir is not listed in the manifest: ",
                    name,
                );
                r.append(" (regenerate provenance so every contract is covered)");
                r
            },
            Error::MetadataMismatch { field, recorded, actual } => {
                let mut r = two(field, " drifted since provenance was generated: manifest ");
                r.append(recorded);
                r.append(" != current ");
                r.append(actual);
                r
            },
        }
    }
}

} // verus!
