//! What generating and verifying promise together.
use crate::artifacts::{
    artifact_list, artifacts_found, names_differ, wasm_files, wasm_files_ignore_directory_order,
    DirFileModel,
};
use crate::build_inputs::{metadata_of, ReadingsModel};
use crate::digest::digest_of;
use crate::encoding::lossy_text;
use crate::failure::{ErrorModel, IoModel};
use crate::manifest::{
    profile_json, subject_names, ManifestModel, MetadataModel, SubjectModel,
};
use crate::release::{
    completeness_problem, first_drift, generated, integrity_problem, subject_problem,
    unlisted, verified, ManifestReadingModel, ReleaseModel,
};
use crate::sorting::{latest, lemma_latest, lemma_name_list, name_list};
use vstd::prelude::*;

verus! {

/// Every recorded artifact is on disk with the recorded digest.
pub open spec fn recorded_are_intact(
    recorded: Seq<SubjectModel>,
    current: Seq<SubjectModel>,
) -> bool {
    forall|i: int|
        0 <= i < recorded.len() ==> match latest(
            subject_names(current),
            (#[trigger] recorded[i]).name,
        ) {
            Some(k) => current[k].sha256 == recorded[i].sha256,
            None => false,
        }
}

/// Every artifact on disk is recorded.
pub open spec fn all_are_recorded(recorded: Seq<SubjectModel>, current: Seq<SubjectModel>) -> bool {
    forall|k: int|
        0 <= k < current.len() ==> subject_names(recorded).contains((#[trigger] current[k]).name)
}

/// The recorded inputs of the build are those of the checkout and the toolchain.
pub open spec fn inputs_match(m: ManifestModel, now: MetadataModel, target: Seq<char>) -> bool {
    &&& m.target == target
    &&& m.inputs.git_revision == now.git_revision
    &&& m.inputs.rustc == now.rustc
    &&& m.inputs.cargo == now.cargo
    &&& m.inputs.soroban_sdk == now.soroban_sdk
    &&& m.inputs.toolchain_channel == now.toolchain_channel
    &&& profile_json(m.inputs.profile) == profile_json(now.profile)
}

/// There is nothing wrong with the recorded artifacts exactly if each is intact.
proof fn lemma_integrity(recorded: Seq<SubjectModel>, current: Seq<SubjectModel>)
    ensures
        integrity_problem(recorded, current) is None <==> recorded_are_intact(recorded, current),
    decreases recorded.len(),
{
    if recorded.len() > 0 {
        let rest = recorded.skip(1);
        lemma_integrity(rest, current);
        assert(subject_problem(recorded[0], current) is None <==> match latest(
            subject_names(current),
            recorded[0].name,
        ) {
            Some(k) => current[k].sha256 == recorded[0].sha256,
            None => false,
        });
        if recorded_are_intact(recorded, current) {
            assert forall|i: int| 0 <= i < rest.len() implies match latest(
                subject_names(current),
                (#[trigger] rest[i]).name,
            ) {
                Some(k) => current[k].sha256 == rest[i].sha256,
                None => false,
            } by {
                assert(rest[i] == recorded[i + 1]);
            }
        }
        if integrity_problem(recorded, current) is None {
            assert forall|i: int| 0 <= i < recorded.len() implies match latest(
                subject_names(current),
                (#[trigger] recorded[i]).name,
            ) {
                Some(k) => current[k].sha256 == recorded[i].sha256,
                None => false,
            } by {
                if i > 0 {
                    assert(rest[i - 1] == recorded[i]);
                }
            }
        }
    }
}

/// No name is unlisted exactly if all of them are recorded.
proof fn lemma_unlisted(list: Seq<Seq<char>>, recorded: Seq<Seq<char>>)
    ensures
        unlisted(list, recorded) is None <==> forall|n: Seq<char>| #[trigger]
            list.contains(n) ==> recorded.contains(n),
    decreases list.len(),
{
    if list.len() > 0 {
        let rest = list.skip(1);
        lemma_unlisted(rest, recorded);
        assert(list.contains(list[0]));
        assert forall|n: Seq<char>| #[trigger] rest.contains(n) implies list.contains(n) by {
            let i = choose|i: int| 0 <= i < rest.len() && rest[i] == n;
            assert(list[i + 1] == n);
        }
        assert forall|n: Seq<char>| #[trigger] list.contains(n) && n != list[0] implies
            rest.contains(n) by {
            let i = choose|i: int| 0 <= i < list.len() && list[i] == n;
            assert(rest[i - 1] == n);
        }
        if unlisted(list, recorded) is None {
            assert forall|n: Seq<char>| #[trigger] list.contains(n) implies recorded.contains(n) by {
                if n != list[0] {
                    assert(rest.contains(n));
                }
            }
        } else if recorded.contains(list[0]) {
            let n = choose|n: Seq<char>| #[trigger] rest.contains(n) && !recorded.contains(n);
            assert(list.contains(n));
        }
    }
}

/// Nothing is missing from the manifest exactly if every artifact on disk is recorded.
proof fn lemma_completeness(recorded: Seq<SubjectModel>, current: Seq<SubjectModel>)
    ensures
        completeness_problem(recorded, current) is None <==> all_are_recorded(recorded, current),
{
    let disk = subject_names(current);
    let known = subject_names(recorded);
    lemma_name_list(disk);
    lemma_unlisted(name_list(disk), known);
    if completeness_problem(recorded, current) is None {
        assert forall|k: int| 0 <= k < current.len() implies known.contains(
            (#[trigger] current[k]).name,
        ) by {
            assert(disk[k] == current[k].name);
            assert(name_list(disk).contains(current[k].name));
        }
    }
    if all_are_recorded(recorded, current) {
        assert forall|n: Seq<char>| #[trigger] name_list(disk).contains(n) implies known.contains(
            n,
        ) by {
            let k = choose|k: int| 0 <= k < disk.len() && disk[k] == n;
            assert(current[k].name == n);
        }
    }
}

/// A release is cleared exactly if the path is a directory, there is a manifest, every
/// artifact can be read, every recorded artifact is on disk with the recorded digest, every
/// artifact on disk is recorded, and no recorded input of the build has drifted.
pub proof fn cleared_exactly_if(
    dir: ReleaseModel,
    manifest_path: Seq<char>,
    manifest: ManifestReadingModel,
    workspace: Result<ReadingsModel, ErrorModel>,
    target: Seq<char>,
)
    ensures
        verified(dir, manifest_path, manifest, workspace, target) is Ok <==> {
            &&& dir.exists
            &&& dir.is_directory
            &&& manifest matches ManifestReadingModel::Parsed(m)
            &&& artifacts_found(dir.files) matches Ok(current)
            &&& recorded_are_intact(m.subject, current)
            &&& all_are_recorded(m.subject, current)
            &&& workspace matches Ok(readings)
            &&& metadata_of(readings) matches Ok(now)
            &&& inputs_match(m, now, target)
        },
{
    if manifest is Parsed && artifacts_found(dir.files) is Ok {
        let m = manifest->Parsed_0;
        let current = artifacts_found(dir.files)->Ok_0;
        lemma_integrity(m.subject, current);
        lemma_completeness(m.subject, current);
        if workspace is Ok && metadata_of(workspace->Ok_0) is Ok {
            let now = metadata_of(workspace->Ok_0)->Ok_0;
            assert(first_drift(m, now, target) is None <==> inputs_match(m, now, target));
        }
    }
}

/// Artifacts of the same name have the same digest.
pub open spec fn names_tell_digests(list: Seq<SubjectModel>) -> bool {
    forall|i: int, j: int|
        #![trigger list[i], list[j]]
        0 <= i < list.len() && 0 <= j < list.len() && list[i].name == list[j].name
            ==> list[i].sha256 == list[j].sha256
}

/// A manifest that was just generated is cleared, for the same directory, workspace and
/// target, and all of its artifacts are verified.
pub proof fn fresh_manifest_is_cleared(
    dir: ReleaseModel,
    workspace: Result<ReadingsModel, ErrorModel>,
    target: Seq<char>,
    started_on: Seq<char>,
    manifest_path: Seq<char>,
    m: ManifestModel,
)
    requires
        generated(dir, workspace, target, started_on) == Ok::<ManifestModel, ErrorModel>(m),
        names_tell_digests(m.subject),
    ensures
        verified(
            dir,
            manifest_path,
            ManifestReadingModel::Parsed(m),
            workspace,
            target,
        ) == Ok::<(ManifestModel, MetadataModel), ErrorModel>((m, m.inputs)),
{
    let current = m.subject;
    assert(artifacts_found(dir.files) == Ok::<Seq<SubjectModel>, ErrorModel>(current));
    assert(recorded_are_intact(m.subject, current)) by {
        assert forall|i: int| 0 <= i < current.len() implies match latest(
            subject_names(current),
            (#[trigger] current[i]).name,
        ) {
            Some(k) => current[k].sha256 == current[i].sha256,
            None => false,
        } by {
            assert(subject_names(current)[i] == current[i].name);
            lemma_latest(subject_names(current), current[i].name);
            let k = latest(subject_names(current), current[i].name).unwrap();
            assert(subject_names(current)[k] == current[k].name);
        }
    }
    assert(all_are_recorded(m.subject, current)) by {
        assert forall|k: int| 0 <= k < current.len() implies subject_names(current).contains(
            (#[trigger] current[k]).name,
        ) by {
            assert(subject_names(current)[k] == current[k].name);
        }
    }
    cleared_exactly_if(
        dir,
        manifest_path,
        ManifestReadingModel::Parsed(m),
        workspace,
        target,
    );
}

/// Generating twice gives the same manifest, but for the time at which it was made.
pub proof fn generating_is_deterministic(
    dir: ReleaseModel,
    workspace: Result<ReadingsModel, ErrorModel>,
    target: Seq<char>,
    first: Seq<char>,
    second: Seq<char>,
)
    ensures
        match (
            generated(dir, workspace, target, first),
            generated(dir, workspace, target, second),
        ) {
            (Ok(a), Ok(b)) => a == (ManifestModel { started_on: first, ..b }),
            (Err(a), Err(b)) => a == b,
            _ => false,
        },
{
}

/// Neither the manifest nor the clearance depends on the order in which the directory was read.
pub proof fn directory_order_is_ignored(
    dir: ReleaseModel,
    a: Seq<DirFileModel>,
    b: Seq<DirFileModel>,
    workspace: Result<ReadingsModel, ErrorModel>,
    target: Seq<char>,
    started_on: Seq<char>,
    manifest_path: Seq<char>,
    manifest: ManifestReadingModel,
)
    requires
        a.to_multiset() == b.to_multiset(),
        names_differ(a),
    ensures
        generated(
            (ReleaseModel { files: Ok(a), ..dir }),
            workspace,
            target,
            started_on,
        ) == generated((ReleaseModel { files: Ok(b), ..dir }), workspace, target, started_on),
        verified(
            (ReleaseModel { files: Ok(a), ..dir }),
            manifest_path,
            manifest,
            workspace,
            target,
        ) == verified(
            (ReleaseModel { files: Ok(b), ..dir }),
            manifest_path,
            manifest,
            workspace,
            target,
        ),
{
    wasm_files_ignore_directory_order(a, b);
}

/// The artifact of each readable file is in the list, under the file's place.
proof fn lemma_artifact_at(files: Seq<DirFileModel>, i: int)
    requires
        0 <= i < files.len(),
        artifact_list(files) is Ok,
    ensures
        artifact_list(files)->Ok_0.len() == files.len(),
        files[i].contents matches Ok(bytes) && artifact_list(files)->Ok_0[i] == (SubjectModel {
            name: lossy_text(files[i].name),
            sha256: digest_of(bytes),
        }),
    decreases files.len(),
{
    if files.len() > 1 {
        let front = files.drop_last();
        if i < files.len() - 1 {
            lemma_artifact_at(front, i);
            assert(front[i] == files[i]);
        } else {
            lemma_artifact_at(front, 0);
        }
    } else {
        reveal_with_fuel(artifact_list, 2);
    }
}

/// What is cleared is what was recorded: a wasm file of the directory stands in the manifest
/// under its name and with the digest of its bytes, where no other wasm file goes by that name.
/// So no changed and no added artifact is cleared.
pub proof fn cleared_artifact_is_recorded(
    dir: ReleaseModel,
    manifest_path: Seq<char>,
    m: ManifestModel,
    workspace: Result<ReadingsModel, ErrorModel>,
    target: Seq<char>,
    list: Seq<DirFileModel>,
    i: int,
)
    requires
        dir.files == Ok::<Seq<DirFileModel>, IoModel>(list),
        verified(
            dir,
            manifest_path,
            ManifestReadingModel::Parsed(m),
            workspace,
            target,
        ) is Ok,
        0 <= i < wasm_files(list).len(),
        forall|j: int|
            0 <= j < wasm_files(list).len() && j != i ==> lossy_text(
                (#[trigger] wasm_files(list)[j]).name,
            ) != lossy_text(wasm_files(list)[i].name),
    ensures
        wasm_files(list)[i].contents matches Ok(bytes) && m.subject.contains(
            SubjectModel {
                name: lossy_text(wasm_files(list)[i].name),
                sha256: digest_of(bytes),
            },
        ),
{
    cleared_exactly_if(
        dir,
        manifest_path,
        ManifestReadingModel::Parsed(m),
        workspace,
        target,
    );
    let files = wasm_files(list);
    let current = artifact_list(files)->Ok_0;
    lemma_artifact_at(files, i);
    let name = current[i].name;
    assert(subject_names(m.subject).contains(name));
    let s = choose|s: int| 0 <= s < subject_names(m.subject).len() && subject_names(m.subject)[s]
        == name;
    assert(m.subject[s].name == name);
    assert(subject_names(current)[i] == name);
    lemma_latest(subject_names(current), name);
    let k = latest(subject_names(current), name).unwrap();
    if k != i {
        lemma_artifact_at(files, k);
        assert(lossy_text(files[k].name) != lossy_text(files[i].name));
    }
    assert(m.subject[s] == current[i]);
}

/// What was recorded is what is cleared: each recorded artifact is a wasm file of the
/// directory that goes by its name and has the recorded digest. So no lost artifact goes unnoticed.
pub proof fn recorded_artifact_is_present(
    dir: ReleaseModel,
    manifest_path: Seq<char>,
    m: ManifestModel,
    workspace: Result<ReadingsModel, ErrorModel>,
    target: Seq<char>,
    list: Seq<DirFileModel>,
    s: int,
) -> (i: int)
    requires
        dir.files == Ok::<Seq<DirFileModel>, IoModel>(list),
        verified(
            dir,
            manifest_path,
            ManifestReadingModel::Parsed(m),
            workspace,
            target,
        ) is Ok,
        0 <= s < m.subject.len(),
    ensures
        0 <= i < wasm_files(list).len(),
        lossy_text(wasm_files(list)[i].name) == m.subject[s].name,
        wasm_files(list)[i].contents matches Ok(bytes) && digest_of(bytes) == m.subject[s].sha256,
{
    cleared_exactly_if(
        dir,
        manifest_path,
        ManifestReadingModel::Parsed(m),
        workspace,
        target,
    );
    let files = wasm_files(list);
    let current = artifact_list(files)->Ok_0;
    let name = m.subject[s].name;
    lemma_latest(subject_names(current), name);
    let i = latest(subject_names(current), name).unwrap();
    if files.len() > 0 {
        lemma_artifact_at(files, 0);
    }
    lemma_artifact_at(files, i);
    assert(subject_names(current)[i] == current[i].name);
    i
}

} // verus!
