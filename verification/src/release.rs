//! Generating the provenance of a release, and verifying it.
//!
//! `generate` ties the bytes of every artifact to the inputs of the build. `verify` is the release
//! gate: it fails if anything drifted.
use crate::artifacts::{
    artifacts_found, collect_artifacts, collected, find_artifacts, listing, shasums_of,
    shasums_text, DirFile, DirFileModel,
};
use crate::build_inputs::{collect_metadata, metadata_of, BuildReadings, ReadingsModel};
use crate::calendar::{now_rfc3339, timestamp};
use crate::failure::{io_error, Error, ErrorModel, IoFailure, IoModel};
use crate::manifest::{
    opt_string, optional, profile_json, profile_text, shown, subject_names, subjects, BuildInfo,
    BuildMetadata, Manifest, ManifestModel, MetadataModel, Subject, SubjectModel, BUILD_TYPE,
    SCHEMA,
};
use crate::sorting::{
    by_name, latest, lemma_index_places, lemma_latest, look_up, name_list, names,
};
use crate::text::{chars_of, same_text, texts, two};
use vstd::prelude::*;

verus! {

/// The release directory, as it was found.
#[derive(Debug, PartialEq, Eq)]
pub struct ReleaseDir {
    pub path: String,
    pub exists: bool,
    pub is_directory: bool,
    pub files: Result<Vec<DirFile>, IoFailure>,
}

/// The mathematical value of a `ReleaseDir`.
#[verifier::ext_equal]
pub struct ReleaseModel {
    pub path: Seq<char>,
    pub exists: bool,
    pub is_directory: bool,
    pub files: Result<Seq<DirFileModel>, IoModel>,
}

impl View for ReleaseDir {
    type V = ReleaseModel;

    open spec fn view(&self) -> ReleaseModel {
        ReleaseModel {
            path: self.path@,
            exists: self.exists,
            is_directory: self.is_directory,
            files: listing(self.files),
        }
    }
}

/// What came of reading a recorded manifest.
#[derive(Debug, PartialEq, Eq)]
pub enum ManifestReading {
    /// There is no such file.
    Missing,
    /// The file could not be read.
    Unreadable(IoFailure),
    /// The text is not a manifest, for this reason.
    Unparseable(String),
    /// The manifest.
    Parsed(Manifest),
}

/// The mathematical value of a `ManifestReading`.
#[verifier::ext_equal]
pub enum ManifestReadingModel {
    Missing,
    Unreadable(IoModel),
    Unparseable(Seq<char>),
    Parsed(ManifestModel),
}

impl View for ManifestReading {
    type V = ManifestReadingModel;

    open spec fn view(&self) -> ManifestReadingModel {
        match self {
            ManifestReading::Missing => ManifestReadingModel::Missing,
            ManifestReading::Unreadable(e) => ManifestReadingModel::Unreadable(e@),
            ManifestReading::Unparseable(e) => ManifestReadingModel::Unparseable(e@),
            ManifestReading::Parsed(m) => ManifestReadingModel::Parsed(m@),
        }
    }
}

/// What was read of the workspace, or why its root was not found.
pub open spec fn workspace_read(r: Result<BuildReadings, Error>) -> Result<
    ReadingsModel,
    ErrorModel,
> {
    match r {
        Ok(readings) => Ok(readings@),
        Err(e) => Err(e@),
    }
}

/// What was generated: the manifest, the list of digests, and what the user is warned of.
#[derive(Debug, PartialEq, Eq)]
pub struct Generated {
    pub manifest: Manifest,
    pub shasums: String,
    pub warnings: Vec<String>,
}

/// What was verified: how many artifacts, and what the user is warned of.
#[derive(Debug, PartialEq, Eq)]
pub struct Verified {
    pub count: usize,
    pub warnings: Vec<String>,
}

/// The path is a directory.
pub open spec fn dir_checked(dir: ReleaseModel) -> Result<(), ErrorModel> {
    if !dir.exists {
        Err(ErrorModel::ReleaseDirMissing(dir.path))
    } else if !dir.is_directory {
        Err(ErrorModel::NotADirectory(dir.path))
    } else {
        Ok(())
    }
}

/// The manifest of a release: the artifacts and the inputs of the build, or the first failure in
/// the order: directory, workspace root, artifacts, inputs.
pub open spec fn generated(
    dir: ReleaseModel,
    workspace: Result<ReadingsModel, ErrorModel>,
    target: Seq<char>,
    started_on: Seq<char>,
) -> Result<ManifestModel, ErrorModel> {
    match dir_checked(dir) {
        Err(e) => Err(e),
        Ok(_) => match workspace {
            Err(e) => Err(e),
            Ok(readings) => match collected(dir.path, dir.files) {
                Err(e) => Err(e),
                Ok(subject) => match metadata_of(readings) {
                    Err(e) => Err(e),
                    Ok(inputs) => Ok(
                        ManifestModel {
                            schema: SCHEMA@,
                            subject,
                            build_type: BUILD_TYPE@,
                            target,
                            inputs,
                            started_on,
                        },
                    ),
                },
            },
        },
    }
}

/// What the user is warned of when a manifest is generated.
pub open spec fn generate_warnings(m: ManifestModel) -> Seq<Seq<char>> {
    if m.inputs.git_dirty {
        seq![
            "fluxora-provenance: warning: working tree is dirty — provenance records uncommitted changes"@,
        ]
    } else {
        Seq::empty()
    }
}

/// What is wrong with a recorded artifact, held against those on disk.
pub open spec fn subject_problem(s: SubjectModel, current: Seq<SubjectModel>) -> Option<
    ErrorModel,
> {
    match latest(subject_names(current), s.name) {
        None => Some(ErrorModel::MissingArtifact { name: s.name }),
        Some(i) => if current[i].sha256 != s.sha256 {
            Some(
                ErrorModel::HashMismatch {
                    name: s.name,
                    expected: s.sha256,
                    actual: current[i].sha256,
                },
            )
        } else {
            None
        },
    }
}

/// What is wrong with the first of the recorded artifacts with which anything is wrong.
pub open spec fn integrity_problem(
    recorded: Seq<SubjectModel>,
    current: Seq<SubjectModel>,
) -> Option<ErrorModel>
    decreases recorded.len(),
{
    if recorded.len() == 0 {
        None
    } else {
        match subject_problem(recorded[0], current) {
            Some(e) => Some(e),
            None => integrity_problem(recorded.skip(1), current),
        }
    }
}

/// The first of the names that is not recorded.
pub open spec fn unlisted(list: Seq<Seq<char>>, recorded: Seq<Seq<char>>) -> Option<ErrorModel>
    decreases list.len(),
{
    if list.len() == 0 {
        None
    } else if !recorded.contains(list[0]) {
        Some(ErrorModel::UnlistedArtifact { name: list[0] })
    } else {
        unlisted(list.skip(1), recorded)
    }
}

/// The first artifact on disk, by name, that the manifest does not list.
pub open spec fn completeness_problem(
    recorded: Seq<SubjectModel>,
    current: Seq<SubjectModel>,
) -> Option<ErrorModel> {
    unlisted(name_list(subject_names(current)), subject_names(recorded))
}

/// The failure where a recorded input is no longer what it was.
pub open spec fn drift(field: Seq<char>, recorded: Seq<char>, actual: Seq<char>) -> Option<
    ErrorModel,
> {
    if recorded == actual {
        None
    } else {
        Some(ErrorModel::MetadataMismatch { field, recorded, actual })
    }
}

/// The first recorded input that is no longer what it was.
pub open spec fn first_drift(m: ManifestModel, now: MetadataModel, target: Seq<char>) -> Option<
    ErrorModel,
> {
    if m.target != target {
        drift("target"@, m.target, target)
    } else if m.inputs.git_revision != now.git_revision {
        drift("git_revision"@, m.inputs.git_revision, now.git_revision)
    } else if m.inputs.rustc != now.rustc {
        drift("rustc"@, m.inputs.rustc, now.rustc)
    } else if m.inputs.cargo != now.cargo {
        drift("cargo"@, m.inputs.cargo, now.cargo)
    } else if m.inputs.soroban_sdk != now.soroban_sdk {
        drift("soroban_sdk"@, m.inputs.soroban_sdk, now.soroban_sdk)
    } else if m.inputs.toolchain_channel != now.toolchain_channel {
        Some(
            ErrorModel::MetadataMismatch {
                field: "toolchain_channel"@,
                recorded: shown(m.inputs.toolchain_channel),
                actual: shown(now.toolchain_channel),
            },
        )
    } else {
        drift("profile"@, profile_json(m.inputs.profile), profile_json(now.profile))
    }
}

/// A manifest, or why there is none.
pub open spec fn manifest_read(path: Seq<char>, m: ManifestReadingModel) -> Result<
    ManifestModel,
    ErrorModel,
> {
    match m {
        ManifestReadingModel::Missing => Err(ErrorModel::ManifestMissing(path)),
        ManifestReadingModel::Unreadable(e) => Err(io_error(e)),
        ManifestReadingModel::Unparseable(e) => Err(ErrorModel::Json(e)),
        ManifestReadingModel::Parsed(m) => Ok(m),
    }
}

/// The manifest and the inputs of the build of a release that holds to what is recorded of it, or
/// the first failure in the order: directory, manifest, files, recorded artifacts, artifacts that
/// are not recorded, workspace root, inputs, drift.
pub open spec fn verified(
    dir: ReleaseModel,
    manifest_path: Seq<char>,
    manifest: ManifestReadingModel,
    workspace: Result<ReadingsModel, ErrorModel>,
    target: Seq<char>,
) -> Result<(ManifestModel, MetadataModel), ErrorModel> {
    match dir_checked(dir) {
        Err(e) => Err(e),
        Ok(_) => match manifest_read(manifest_path, manifest) {
            Err(e) => Err(e),
            Ok(m) => match artifacts_found(dir.files) {
                Err(e) => Err(e),
                Ok(current) => match integrity_problem(m.subject, current) {
                    Some(e) => Err(e),
                    None => match completeness_problem(m.subject, current) {
                        Some(e) => Err(e),
                        None => match workspace {
                            Err(e) => Err(e),
                            Ok(readings) => match metadata_of(readings) {
                                Err(e) => Err(e),
                                Ok(now) => match first_drift(m, now, target) {
                                    Some(e) => Err(e),
                                    None => Ok((m, now)),
                                },
                            },
                        },
                    },
                },
            },
        },
    }
}

/// What the user is warned of when a manifest is verified: another branch, or a tree that was
/// dirty.
pub open spec fn verify_warnings(m: ManifestModel, now: MetadataModel) -> Seq<Seq<char>> {
    let moved = match (m.inputs.git_ref, now.git_ref) {
        (Some(recorded), Some(current)) => if recorded != current {
            seq![
                "fluxora-provenance: warning: git ref drifted ("@ + recorded + " -> "@ + current
                    + "); the revision is still pinned"@,
            ]
        } else {
            Seq::empty()
        },
        _ => Seq::empty(),
    };
    if m.inputs.git_dirty {
        moved.push("fluxora-provenance: warning: provenance records a dirty working tree"@)
    } else {
        moved
    }
}

/// Checks that the release path is a directory.
pub fn validate_release_dir(dir: &ReleaseDir) -> (r: Result<(), Error>)
    ensures
        match r {
            Ok(()) => dir_checked(dir@) is Ok,
            Err(e) => dir_checked(dir@) == Err::<(), ErrorModel>(e@),
        },
{
    if !dir.exists {
        return Err(Error::ReleaseDirMissing(dir.path.clone()));
    }
    if !dir.is_directory {
        return Err(Error::NotADirectory(dir.path.clone()));
    }
    Ok(())
}

/// The provenance of a release whose manifest is made at the time `started_on`.
pub fn generate_at(
    dir: ReleaseDir,
    workspace: Result<BuildReadings, Error>,
    target: &str,
    started_on: String,
) -> (r: Result<Generated, Error>)
    ensures
        match r {
            Ok(g) => {
                &&& generated(dir@, workspace_read(workspace), target@, started_on@) == Ok::<
                    ManifestModel,
                    ErrorModel,
                >(g.manifest@)
                &&& g.shasums@ == shasums_of(g.manifest@.subject)
                &&& texts(g.warnings@) == generate_warnings(g.manifest@)
            },
            Err(e) => generated(dir@, workspace_read(workspace), target@, started_on@) == Err::<
                ManifestModel,
                ErrorModel,
            >(e@),
        },
{
    match validate_release_dir(&dir) {
        Ok(()) => {},
        Err(e) => return Err(e),
    }
    let readings = match workspace {
        Ok(readings) => readings,
        Err(e) => return Err(e),
    };
    let subject = match collect_artifacts(&dir.path, dir.files) {
        Ok(list) => list,
        Err(e) => return Err(e),
    };
    let meta = match collect_metadata(&readings) {
        Ok(meta) => meta,
        Err(e) => return Err(e),
    };
    let mut warnings: Vec<String> = Vec::new();
    if meta.git_dirty {
        warnings.push(
            "fluxora-provenance: warning: working tree is dirty — provenance records uncommitted changes".to_string(),
        );
    }
    let shasums = shasums_text(&subject);
    let manifest = Manifest {
        schema: SCHEMA.to_string(),
        subject,
        build: BuildInfo {
            build_type: BUILD_TYPE.to_string(),
            target: target.to_string(),
            profile: meta.profile,
            git_revision: meta.git_revision,
            git_ref: meta.git_ref,
            git_dirty: meta.git_dirty,
            toolchain_channel: meta.toolchain_channel,
            rustc: meta.rustc,
            cargo: meta.cargo,
            soroban_sdk: meta.soroban_sdk,
            host: meta.host,
            started_on,
        },
    };
    assert(texts(warnings@) =~= generate_warnings(manifest@));
    Ok(Generated { manifest, shasums, warnings })
}

/// The provenance of a release: the manifest, made now, and the list of digests.
pub fn generate(
    dir: ReleaseDir,
    workspace: Result<BuildReadings, Error>,
    target: &str,
) -> (r: Result<Generated, Error>)
    ensures
        exists|secs: u64|
            #![trigger timestamp(secs as nat)]
            match r {
                Ok(g) => {
                    &&& generated(
                        dir@,
                        workspace_read(workspace),
                        target@,
                        timestamp(secs as nat),
                    ) == Ok::<ManifestModel, ErrorModel>(g.manifest@)
                    &&& g.shasums@ == shasums_of(g.manifest@.subject)
                    &&& texts(g.warnings@) == generate_warnings(g.manifest@)
                },
                Err(e) => generated(
                    dir@,
                    workspace_read(workspace),
                    target@,
                    timestamp(secs as nat),
                ) == Err::<ManifestModel, ErrorModel>(e@),
            },
{
    let now = now_rfc3339();
    let ghost secs = choose|secs: u64| now@ == #[trigger] timestamp(secs as nat);
    assert(now@ == timestamp(secs as nat));
    generate_at(dir, workspace, target, now)
}

/// Checks that a recorded input is still what it was.
pub fn check_field(field: &'static str, recorded: &str, actual: &str) -> (r: Result<(), Error>)
    ensures
        match r {
            Ok(()) => drift(field@, recorded@, actual@) is None,
            Err(e) => drift(field@, recorded@, actual@) == Some(e@),
        },
{
    if same_text(recorded, actual) {
        Ok(())
    } else {
        Err(
            Error::MetadataMismatch {
                field,
                recorded: recorded.to_string(),
                actual: actual.to_string(),
            },
        )
    }
}

/// The names of a list of subjects are the names of their values.
proof fn lemma_subject_names(list: Seq<Subject>)
    ensures
        names::<Subject, char>(list) == subject_names(subjects(list)),
{
    assert(names::<Subject, char>(list) =~= subject_names(subjects(list)));
}

/// Checks that every recorded artifact is on disk with the recorded digest.
pub fn check_integrity(recorded: &[Subject], current: &[Subject]) -> (r: Result<(), Error>)
    ensures
        match r {
            Ok(()) => integrity_problem(subjects(recorded@), subjects(current@)) is None,
            Err(e) => integrity_problem(subjects(recorded@), subjects(current@)) == Some(e@),
        },
{
    let ghost all = subjects(recorded@);
    let ghost disk = subjects(current@);
    assert(all.skip(0) == all);
    proof {
        lemma_subject_names(current@);
    }
    for i in 0..recorded.len()
        invariant
            all == subjects(recorded@),
            disk == subjects(current@),
            names::<Subject, char>(current@) == subject_names(disk),
            integrity_problem(all, disk) == integrity_problem(all.skip(i as int), disk),
    {
        assert(all.skip(i as int)[0] == recorded@[i as int]@);
        assert(all.skip(i as int).skip(1) == all.skip(i + 1));
        let s = &recorded[i];
        match look_up(current, &chars_of(&s.name)) {
            None => {
                return Err(Error::MissingArtifact { name: s.name.clone() });
            },
            Some(k) => {
                assert(disk[k as int] == current@[k as int]@);
                if !same_text(&current[k].sha256, &s.sha256) {
                    return Err(
                        Error::HashMismatch {
                            name: s.name.clone(),
                            expected: s.sha256.clone(),
                            actual: current[k].sha256.clone(),
                        },
                    );
                }
            },
        }
    }
    Ok(())
}

/// Checks that every artifact on disk is recorded.
pub fn check_completeness(recorded: &[Subject], current: &[Subject]) -> (r: Result<(), Error>)
    ensures
        match r {
            Ok(()) => completeness_problem(subjects(recorded@), subjects(current@)) is None,
            Err(e) => completeness_problem(subjects(recorded@), subjects(current@)) == Some(e@),
        },
{
    let ghost disk = subject_names(subjects(current@));
    let ghost known = subject_names(subjects(recorded@));
    let ghost list = name_list(disk);
    let order = by_name::<Subject, char>(current);
    proof {
        lemma_subject_names(current@);
        lemma_subject_names(recorded@);
        lemma_index_places(order@, disk);
        assert(list.skip(0) == list);
    }
    for k in 0..order.len()
        invariant
            disk == subject_names(subjects(current@)),
            known == subject_names(subjects(recorded@)),
            names::<Subject, char>(recorded@) == known,
            list == name_list(disk),
            order@.len() == list.len(),
            forall|j: int|
                0 <= j < order@.len() ==> #[trigger] order@[j] < current@.len()
                    && disk[order@[j] as int] == list[j],
            unlisted(list, known) == unlisted(list.skip(k as int), known),
    {
        assert(order@[k as int] < current@.len());
        let name: &str = &current[order[k]].name;
        assert(name@ == disk[order@[k as int] as int]);
        assert(list.skip(k as int)[0] == list[k as int]);
        assert(list.skip(k as int).skip(1) == list.skip(k + 1));
        proof {
            lemma_latest(known, name@);
        }
        if look_up(recorded, &chars_of(name)).is_none() {
            return Err(Error::UnlistedArtifact { name: name.to_string() });
        }
    }
    Ok(())
}

/// Whether two optional toolchain channels are the same. That there is none is not the same as any
/// text.
fn same_channel(recorded: &Option<String>, current: &Option<String>) -> (r: bool)
    ensures
        r == (optional(*recorded) == optional(*current)),
{
    match (recorded, current) {
        (Some(a), Some(b)) => same_text(a, b),
        (None, None) => true,
        _ => false,
    }
}

/// Checks that no recorded input of the build has drifted from the checkout and the toolchain.
pub fn check_inputs(manifest: &Manifest, now: &BuildMetadata, target: &str) -> (r: Result<
    (),
    Error,
>)
    ensures
        match r {
            Ok(()) => first_drift(manifest@, now@, target@) is None,
            Err(e) => first_drift(manifest@, now@, target@) == Some(e@),
        },
{
    match check_field("target", &manifest.build.target, target) {
        Ok(()) => {},
        Err(e) => return Err(e),
    }
    match check_field("git_revision", &manifest.build.git_revision, &now.git_revision) {
        Ok(()) => {},
        Err(e) => return Err(e),
    }
    match check_field("rustc", &manifest.build.rustc, &now.rustc) {
        Ok(()) => {},
        Err(e) => return Err(e),
    }
    match check_field("cargo", &manifest.build.cargo, &now.cargo) {
        Ok(()) => {},
        Err(e) => return Err(e),
    }
    match check_field("soroban_sdk", &manifest.build.soroban_sdk, &now.soroban_sdk) {
        Ok(()) => {},
        Err(e) => return Err(e),
    }
    if !same_channel(&manifest.build.toolchain_channel, &now.toolchain_channel) {
        return Err(
            Error::MetadataMismatch {
                field: "toolchain_channel",
                recorded: opt_string(&manifest.build.toolchain_channel),
                actual: opt_string(&now.toolchain_channel),
            },
        );
    }
    let recorded_profile = profile_text(&manifest.build.profile);
    let current_profile = profile_text(&now.profile);
    check_field("profile", &recorded_profile, &current_profile)
}

/// What the user is warned of when a manifest is verified.
fn warn_of(manifest: &Manifest, now: &BuildMetadata) -> (r: Vec<String>)
    ensures
        texts(r@) == verify_warnings(manifest@, now@),
{
    let mut warnings: Vec<String> = Vec::new();
    assert(texts(warnings@) =~= Seq::empty());
    if let (Some(recorded), Some(current)) = (&manifest.build.git_ref, &now.git_ref) {
        if !same_text(recorded, current) {
            let mut text = two("fluxora-provenance: warning: git ref drifted (", recorded);
            text.append(" -> ");
            text.append(current);
            text.append("); the revision is still pinned");
            warnings.push(text);
        }
    }
    let ghost moved = texts(warnings@);
    if manifest.build.git_dirty {
        let text = "fluxora-provenance: warning: provenance records a dirty working tree";
        warnings.push(text.to_string());
        assert(texts(warnings@) =~= moved.push(text@));
    }
    assert(texts(warnings@) =~= verify_warnings(manifest@, now@));
    warnings
}

/// The release gate. It gives the number of artifacts that were verified, and fails where a
/// recorded artifact is missing or has another digest, where a wasm file of the directory is not
/// recorded, or where a recorded input of the build, the target, git revision, compiler, cargo,
/// sdk, toolchain channel or profile, is no longer what it was.
pub fn verify(
    dir: ReleaseDir,
    manifest_path: &str,
    manifest: ManifestReading,
    workspace: Result<BuildReadings, Error>,
    target: &str,
) -> (r: Result<Verified, Error>)
    ensures
        match r {
            Ok(v) => match verified(
                dir@,
                manifest_path@,
                manifest@,
                workspace_read(workspace),
                target@,
            ) {
                Ok((m, now)) => v.count == m.subject.len() && texts(v.warnings@) == verify_warnings(
                    m,
                    now,
                ),
                Err(_) => false,
            },
            Err(e) => verified(
                dir@,
                manifest_path@,
                manifest@,
                workspace_read(workspace),
                target@,
            ) == Err::<(ManifestModel, MetadataModel), ErrorModel>(e@),
        },
{
    match validate_release_dir(&dir) {
        Ok(()) => {},
        Err(e) => return Err(e),
    }
    let manifest = match manifest {
        ManifestReading::Missing => return Err(Error::ManifestMissing(manifest_path.to_string())),
        ManifestReading::Unreadable(e) => return Err(
            Error::Io { path: e.path, source: e.source },
        ),
        ManifestReading::Unparseable(e) => return Err(Error::Json(e)),
        ManifestReading::Parsed(m) => m,
    };
    let current = match find_artifacts(dir.files) {
        Ok(list) => list,
        Err(e) => return Err(e),
    };
    match check_integrity(&manifest.subject, &current) {
        Ok(()) => {},
        Err(e) => return Err(e),
    }
    match check_completeness(&manifest.subject, &current) {
        Ok(()) => {},
        Err(e) => return Err(e),
    }
    let readings = match workspace {
        Ok(readings) => readings,
        Err(e) => return Err(e),
    };
    let now = match collect_metadata(&readings) {
        Ok(meta) => meta,
        Err(e) => return Err(e),
    };
    match check_inputs(&manifest, &now, target) {
        Ok(()) => {},
        Err(e) => return Err(e),
    }
    let warnings = warn_of(&manifest, &now);
    assert(manifest@.subject.len() == manifest.subject@.len());
    Ok(Verified { count: manifest.subject.len(), warnings })
}

} // verus!
