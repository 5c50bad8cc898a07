//! The provenance manifest: what was built, and from what.
//!
//! It follows the conventions of SLSA v1.0, digests of subjects and a build definition, without
//! claiming to be a full attestation.
use crate::json_text::json_quoted;
use crate::sorting::Keyed;
use crate::text::{chars_of, join, joined, texts, two};
use vstd::prelude::*;

verus! {

/// The schema that a manifest names.
pub const SCHEMA: &'static str = "https://slsa.dev/provenance/v1.0";

/// The kind of build that a manifest names.
pub const BUILD_TYPE: &'static str = "https://github.com/Fluxora-Org/Fluxora-Contracts/provenance/v1";

/// The target that is built where none is given.
pub const DEFAULT_TARGET: &'static str = "wasm32v1-none";

/// The name of the manifest in the release directory.
pub const MANIFEST_FILENAME: &'static str = "provenance.json";

/// The name of the list of digests in the release directory.
pub const SHASUMS_FILENAME: &'static str = "SHASUMS";

/// One released artifact and its digest: the name of the wasm file in the release directory, and
/// the hexadecimal SHA-256 digest of its bytes.
#[derive(Debug, Clone, PartialEq, Eq)]
pub struct Subject {
    pub name: String,
    pub sha256: String,
}

/// One setting of the release profile, its value as JSON text.
#[derive(Debug, Clone, PartialEq, Eq)]
pub struct ProfileValue {
    pub key: String,
    pub json: String,
}

/// The release profile of the workspace, setting by setting, so that release flags cannot drift
/// from what the manifest claims.
#[derive(Debug, Clone, PartialEq, Eq)]
pub struct Profile {
    pub values: Vec<ProfileValue>,
}

/// Everything that identifies the build that the artifacts came from.
#[derive(Debug, Clone, PartialEq, Eq)]
pub struct BuildInfo {
    pub build_type: String,
    pub target: String,
    pub profile: Profile,
    pub git_revision: String,
    pub git_ref: Option<String>,
    pub git_dirty: bool,
    pub toolchain_channel: Option<String>,
    pub rustc: String,
    pub cargo: String,
    pub soroban_sdk: String,
    pub host: String,
    pub started_on: String,
}

/// The provenance manifest.
#[derive(Debug, Clone, PartialEq, Eq)]
pub struct Manifest {
    pub schema: String,
    pub subject: Vec<Subject>,
    pub build: BuildInfo,
}

/// The inputs of the build, as the checkout and the toolchain show them.
#[derive(Debug, Clone, PartialEq, Eq)]
pub struct BuildMetadata {
    pub git_revision: String,
    pub git_ref: Option<String>,
    pub git_dirty: bool,
    pub toolchain_channel: Option<String>,
    pub rustc: String,
    pub cargo: String,
    pub soroban_sdk: String,
    pub host: String,
    pub profile: Profile,
}

/// The mathematical value of a `Subject`.
#[verifier::ext_equal]
pub struct SubjectModel {
    pub name: Seq<char>,
    pub sha256: Seq<char>,
}

/// The mathematical value of a `ProfileValue`.
#[verifier::ext_equal]
pub struct SettingModel {
    pub key: Seq<char>,
    pub json: Seq<char>,
}

/// The mathematical value of a `BuildMetadata`.
#[verifier::ext_equal]
pub struct MetadataModel {
    pub git_revision: Seq<char>,
    pub git_ref: Option<Seq<char>>,
    pub git_dirty: bool,
    pub toolchain_channel: Option<Seq<char>>,
    pub rustc: Seq<char>,
    pub cargo: Seq<char>,
    pub soroban_sdk: Seq<char>,
    pub host: Seq<char>,
    pub profile: Seq<SettingModel>,
}

/// The mathematical value of a `Manifest`.
#[verifier::ext_equal]
pub struct ManifestModel {
    pub schema: Seq<char>,
    pub subject: Seq<SubjectModel>,
    pub build_type: Seq<char>,
    pub target: Seq<char>,
    pub inputs: MetadataModel,
    pub started_on: Seq<char>,
}

impl View for Subject {
    type V = SubjectModel;

    open spec fn view(&self) -> SubjectModel {
        SubjectModel { name: self.name@, sha256: self.sha256@ }
    }
}

impl View for ProfileValue {
    type V = SettingModel;

    open spec fn view(&self) -> SettingModel {
        SettingModel { key: self.key@, json: self.json@ }
    }
}

impl View for Profile {
    type V = Seq<SettingModel>;

    open spec fn view(&self) -> Seq<SettingModel> {
        self.values@.map_values(|v: ProfileValue| v@)
    }
}

/// An optional text.
pub open spec fn optional(s: Option<String>) -> Option<Seq<char>> {
    match s {
        Some(s) => Some(s@),
        None => None,
    }
}

impl View for BuildMetadata {
    type V = MetadataModel;

    open spec fn view(&self) -> MetadataModel {
        MetadataModel {
            git_revision: self.git_revision@,
            git_ref: optional(self.git_ref),
            git_dirty: self.git_dirty,
            toolchain_channel: optional(self.toolchain_channel),
            rustc: self.rustc@,
            cargo: self.cargo@,
            soroban_sdk: self.soroban_sdk@,
            host: self.host@,
            profile: self.profile@,
        }
    }
}

impl View for Manifest {
    type V = ManifestModel;

    open spec fn view(&self) -> ManifestModel {
        ManifestModel {
            schema: self.schema@,
            subject: subjects(self.subject@),
            build_type: self.build.build_type@,
            target: self.build.target@,
            inputs: MetadataModel {
                git_revision: self.build.git_revision@,
                git_ref: optional(self.build.git_ref),
                git_dirty: self.build.git_dirty,
                toolchain_channel: optional(self.build.toolchain_channel),
                rustc: self.build.rustc@,
                cargo: self.build.cargo@,
                soroban_sdk: self.build.soroban_sdk@,
                host: self.build.host@,
                profile: self.build.profile@,
            },
            started_on: self.build.started_on@,
        }
    }
}

/// The values of a list of subjects.
pub open spec fn subjects(list: Seq<Subject>) -> Seq<SubjectModel> {
    list.map_values(|s: Subject| s@)
}

/// The names of a list of subjects.
pub open spec fn subject_names(list: Seq<SubjectModel>) -> Seq<Seq<char>> {
    list.map_values(|s: SubjectModel| s.name)
}

impl Keyed<char> for Subject {
    open spec fn key(&self) -> Seq<char> {
        self.name@
    }

    fn symbols(&self) -> (r: Vec<char>) {
        chars_of(&self.name)
    }
}

/// The text of `serde_json::Value::String` of the `serde_json` crate: the characters in double
/// quotes, those escaped that JSON does not take as they are.
#[verifier::external_body]
fn json_string(s: &str) -> (r: String)
    ensures
        r@ == json_quoted(s@),
{
    serde_json::Value::String(s.to_string()).to_string()
}

/// A setting as a member of a JSON object.
pub open spec fn setting_text(v: SettingModel) -> Seq<char> {
    json_quoted(v.key) + ":"@ + v.json
}

/// A profile as JSON text, its settings in their order.
pub open spec fn profile_json(profile: Seq<SettingModel>) -> Seq<char> {
    "{"@ + joined(profile.map_values(|v: SettingModel| setting_text(v)), ","@) + "}"@
}

/// A profile as JSON text, its settings in their order.
pub fn profile_text(profile: &Profile) -> (r: String)
    ensures
        r@ == profile_json(profile@),
{
    let ghost all = profile@;
    let mut rows: Vec<String> = Vec::new();
    for i in 0..profile.values.len()
        invariant
            all == profile@,
            rows@.len() == i,
            forall|j: int| 0 <= j < i ==> (#[trigger] rows@[j])@ == setting_text(all[j]),
    {
        let mut row = json_string(&profile.values[i].key);
        row.append(":");
        row.append(&profile.values[i].json);
        rows.push(row);
    }
    assert(texts(rows@) =~= all.map_values(|v: SettingModel| setting_text(v)));
    let mut r = two("{", &join(&rows, ","));
    r.append("}");
    r
}

/// An optional text, with a mark where there is none.
pub open spec fn shown(value: Option<Seq<char>>) -> Seq<char> {
    match value {
        Some(s) => s,
        None => "<none>"@,
    }
}

/// An optional text, with a mark where there is none.
pub fn opt_string(value: &Option<String>) -> (r: String)
    ensures
        r@ == shown(optional(*value)),
{
    match value {
        Some(s) => s.clone(),
        None => "<none>".to_string(),
    }
}

} // verus!
