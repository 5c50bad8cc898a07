//! What a release records, and when it is refused.
use crate::artifacts::{
    artifact_list, artifacts_found, collected, file_key, is_wasm, lemma_filter_multiset, only_wasm,
    shasums_of, temporary, wasm_files, wasm_suffix, DirFileModel,
};
use crate::build_inputs::{metadata_of, ReadingsModel};
use crate::clearance::{all_are_recorded, cleared_exactly_if, inputs_match, recorded_are_intact};
use crate::digest::{hex_of, sha256};
use crate::encoding::lossy_text;
use crate::failure::{ErrorModel, IoModel};
use crate::json_text::json_quoted;
use crate::laws::inputs::{shows, versions_are_what_was_printed};
use crate::manifest::{
    profile_json, setting_text, subject_names, ManifestModel, MetadataModel, SettingModel,
    SubjectModel,
};
use crate::release::{
    completeness_problem, first_drift, generate_warnings, generated, integrity_problem,
    subject_problem, unlisted, verified, verify_warnings, ManifestReadingModel, ReleaseModel,
};
use crate::sorting::{
    keys_of, latest, lemma_latest, lemma_name_list, lemma_sorted, name_list, precedes,
};
use crate::text::joined;
use vstd::prelude::*;

verus! {

/// A file name has the extension exactly if it is something followed by the five bytes `.wasm`.
pub proof fn wasm_names_end_in_the_extension(stem: Seq<u8>, name: Seq<u8>)
    ensures
        is_wasm(stem + seq![0x2eu8, 0x77u8, 0x61u8, 0x73u8, 0x6du8]) <==> stem.len() > 0,
        is_wasm(name) ==> name.len() > 5 && name == name.take(name.len() - 5) + seq![
            0x2eu8,
            0x77u8,
            0x61u8,
            0x73u8,
            0x6du8,
        ],
{
    let tail = seq![0x2eu8, 0x77u8, 0x61u8, 0x73u8, 0x6du8];
    let whole = stem + tail;
    assert(tail =~= wasm_suffix());
    assert(whole.skip(whole.len() - 5) =~= tail);
    if is_wasm(name) {
        assert(name =~= name.take(name.len() - 5) + name.skip(name.len() - 5));
    }
}

/// The wasm files of a directory are its entries that are files with the extension, each as often
/// as it was listed, in the order of the bytes of their names.
pub proof fn wasm_files_are_the_files_with_the_extension(list: Seq<DirFileModel>, i: int, j: int)
    ensures
        wasm_files(list).to_multiset() =~= list.to_multiset().filter(
            |f: DirFileModel| f.is_file && is_wasm(f.name),
        ),
        0 <= i < j < wasm_files(list).len() ==> !precedes(
            wasm_files(list)[j].name,
            wasm_files(list)[i].name,
        ),
{
    let keep = |f: DirFileModel| f.is_file && is_wasm(f.name);
    lemma_filter_multiset(list, keep);
    lemma_sorted(only_wasm(list), file_key());
    let files = wasm_files(list);
    let keys = keys_of(files, file_key());
    if 0 <= i < j < files.len() {
        assert(keys[i] == files[i].name && keys[j] == files[j].name);
    }
}

/// Where every file could be read, each gives an artifact under its name, with the digest of its
/// bytes in hexadecimal. Where one could not, the failure to read the first such file comes out.
pub proof fn artifacts_are_the_files(files: Seq<DirFileModel>, i: int)
    ensures
        artifact_list(files) is Ok <==> forall|j: int|
            0 <= j < files.len() ==> (#[trigger] files[j]).contents is Ok,
        artifact_list(files) is Ok ==> artifact_list(files)->Ok_0.len() == files.len(),
        artifact_list(files) is Ok && 0 <= i < files.len() ==> files[i].contents is Ok
            && artifact_list(files)->Ok_0[i] == (SubjectModel {
            name: lossy_text(files[i].name),
            sha256: hex_of(sha256(files[i].contents->Ok_0)),
        }),
        0 <= i < files.len() && files[i].contents is Err && (forall|j: int|
            0 <= j < i ==> (#[trigger] files[j]).contents is Ok) ==> artifact_list(files) == Err::<
            Seq<SubjectModel>,
            ErrorModel,
        >(
            ErrorModel::Io {
                path: files[i].contents->Err_0.path,
                source: files[i].contents->Err_0.source,
            },
        ),
    decreases files.len(),
{
    if files.len() > 0 {
        let front = files.drop_last();
        artifacts_are_the_files(front, i);
        assert(forall|j: int| 0 <= j < front.len() ==> front[j] == files[j]);
        assert(files.last() == files[files.len() - 1]);
        if (forall|j: int| 0 <= j < files.len() ==> (#[trigger] files[j]).contents is Ok) {
            assert forall|j: int| 0 <= j < front.len() implies (#[trigger] front[j]).contents is Ok by {
                assert(files[j].contents is Ok);
            }
        }
        if artifact_list(files) is Ok {
            assert forall|j: int| 0 <= j < files.len() implies (#[trigger] files[j]).contents is Ok by {
                if j < front.len() {
                    assert(front[j].contents is Ok);
                }
            }
        }
        if 0 <= i < files.len() && files[i].contents is Err && (forall|j: int|
            0 <= j < i ==> (#[trigger] files[j]).contents is Ok) {
            assert forall|j: int| 0 <= j < i implies (#[trigger] front[j]).contents is Ok by {
                assert(files[j].contents is Ok);
            }
            if i < front.len() {
                assert(front[i].contents is Err);
            } else {
                assert(artifact_list(front) is Ok);
            }
        }
    }
}

/// The artifacts of a directory are those of its wasm files. A directory that could not be listed
/// has none to tell, and generating wants at least one.
pub proof fn artifacts_come_from_the_wasm_files(
    dir: Seq<char>,
    list: Seq<DirFileModel>,
    path: Seq<char>,
    source: Seq<char>,
)
    ensures
        artifacts_found(Ok(list)) == artifact_list(wasm_files(list)),
        wasm_files(list).len() > 0 ==> collected(dir, Ok(list)) == artifact_list(wasm_files(list)),
        wasm_files(list).len() == 0 ==> collected(dir, Ok(list)) == Err::<
            Seq<SubjectModel>,
            ErrorModel,
        >(ErrorModel::NoWasmArtifacts(dir)),
        artifacts_found(Err(IoModel { path, source })) == Err::<Seq<SubjectModel>, ErrorModel>(
            ErrorModel::Io { path, source },
        ),
        collected(dir, Err(IoModel { path, source })) == Err::<Seq<SubjectModel>, ErrorModel>(
            ErrorModel::Io { path, source },
        ),
{
}

/// The list of digests has one line for each artifact, in order: the digest, two spaces, the name
/// and a line feed.
pub proof fn shasums_have_a_line_for_each(
    before: Seq<SubjectModel>,
    s: SubjectModel,
    after: Seq<SubjectModel>,
)
    ensures
        shasums_of(Seq::empty()) == Seq::<char>::empty(),
        shasums_of(before + seq![s] + after) == shasums_of(before) + (s.sha256 + seq![' ', ' ']
            + s.name + seq!['\n']) + shasums_of(after),
    decreases after.len(),
{
    let all = before + seq![s] + after;
    reveal_strlit("  ");
    reveal_strlit("\n");
    assert("  "@ =~= seq![' ', ' ']);
    assert("\n"@ =~= seq!['\n']);
    let line = s.sha256 + seq![' ', ' '] + s.name + seq!['\n'];
    if after.len() == 0 {
        assert(all =~= before.push(s));
        assert(before.push(s).drop_last() =~= before);
        assert(shasums_of(after) =~= Seq::empty());
        assert(shasums_of(all) =~= shasums_of(before) + line + shasums_of(after));
    } else {
        let front = after.drop_last();
        shasums_have_a_line_for_each(before, s, front);
        assert(all.drop_last() =~= before + seq![s] + front);
        assert(all.last() == after.last());
        assert(shasums_of(all) =~= shasums_of(before) + line + shasums_of(after));
    }
}

/// A file is written under its own name with a dot in front and `.tmp` behind before it takes its
/// place.
pub proof fn temporary_names_are_hidden(name: Seq<char>)
    ensures
        temporary(Some(name)) == seq!['.'] + name + seq!['.', 't', 'm', 'p'],
        temporary(None) == seq!['.', 'o', 'u', 't', '.', 't', 'm', 'p'],
{
    reveal_strlit(".");
    reveal_strlit(".tmp");
    reveal_strlit("out");
    assert(temporary(Some(name)) =~= seq!['.'] + name + seq!['.', 't', 'm', 'p']);
    assert(temporary(None) =~= seq!['.', 'o', 'u', 't', '.', 't', 'm', 'p']);
}

/// A manifest records what is in the directory, what was built for, and the inputs as they were
/// read, all of it, under the schema and build type of this tool and with the time it was made.
pub proof fn manifests_record_what_was_read(
    dir: ReleaseModel,
    workspace: Result<ReadingsModel, ErrorModel>,
    target: Seq<char>,
    started_on: Seq<char>,
)
    ensures
        generated(dir, workspace, target, started_on) is Ok <==> {
            &&& dir.exists
            &&& dir.is_directory
            &&& workspace is Ok
            &&& collected(dir.path, dir.files) is Ok
            &&& metadata_of(workspace->Ok_0) is Ok
        },
        generated(dir, workspace, target, started_on) matches Ok(m) ==> {
            &&& m.schema == "https://slsa.dev/provenance/v1.0"@
            &&& m.build_type
                == "https://github.com/Fluxora-Org/Fluxora-Contracts/provenance/v1"@
            &&& m.target == target
            &&& m.started_on == started_on
            &&& collected(dir.path, dir.files) == Ok::<Seq<SubjectModel>, ErrorModel>(m.subject)
            &&& metadata_of(workspace->Ok_0) == Ok::<MetadataModel, ErrorModel>(m.inputs)
        },
{
}

/// What stands in the way of a manifest is told in a fixed order: the directory, the workspace, the
/// artifacts, the inputs.
pub proof fn generating_fails_in_order(
    dir: ReleaseModel,
    workspace: Result<ReadingsModel, ErrorModel>,
    target: Seq<char>,
    started_on: Seq<char>,
)
    ensures
        ({
            let r = generated(dir, workspace, target, started_on);
            &&& !dir.exists ==> r == Err::<ManifestModel, ErrorModel>(
                ErrorModel::ReleaseDirMissing(dir.path),
            )
            &&& dir.exists && !dir.is_directory ==> r == Err::<ManifestModel, ErrorModel>(
                ErrorModel::NotADirectory(dir.path),
            )
            &&& dir.exists && dir.is_directory ==> {
                &&& workspace matches Err(e) ==> r == Err::<ManifestModel, ErrorModel>(e)
                &&& workspace is Ok ==> {
                    &&& collected(dir.path, dir.files) matches Err(e) ==> r == Err::<
                        ManifestModel,
                        ErrorModel,
                    >(e)
                    &&& collected(dir.path, dir.files) is Ok ==> (metadata_of(
                        workspace->Ok_0,
                    ) matches Err(e) ==> r == Err::<ManifestModel, ErrorModel>(e))
                }
            }
        }),
{
}

/// A cleared release has no input that differs from what is recorded: not the target, not the
/// revision, not the compiler, not cargo, not the sdk, not the channel, not the profile.
pub proof fn cleared_means_nothing_drifted(
    dir: ReleaseModel,
    path: Seq<char>,
    m: ManifestModel,
    workspace: Result<ReadingsModel, ErrorModel>,
    target: Seq<char>,
)
    requires
        verified(dir, path, ManifestReadingModel::Parsed(m), workspace, target) is Ok,
    ensures
        dir.exists && dir.is_directory,
        workspace is Ok && metadata_of(workspace->Ok_0) is Ok,
        verified(dir, path, ManifestReadingModel::Parsed(m), workspace, target)->Ok_0 == (
            m,
            metadata_of(workspace->Ok_0)->Ok_0,
        ),
        ({
            let now = metadata_of(workspace->Ok_0)->Ok_0;
            &&& m.target == target
            &&& m.inputs.git_revision == now.git_revision
            &&& m.inputs.rustc == now.rustc
            &&& m.inputs.cargo == now.cargo
            &&& m.inputs.soroban_sdk == now.soroban_sdk
            &&& m.inputs.toolchain_channel == now.toolchain_channel
            &&& profile_json(m.inputs.profile) == profile_json(now.profile)
        }),
{
}

/// The artifact is on disk, and no artifact of its name stands behind it.
pub open spec fn last_on_disk(s: SubjectModel, current: Seq<SubjectModel>) -> bool {
    exists|k: int|
        #![trigger current[k]]
        0 <= k < current.len() && current[k] == s && forall|j: int|
            k < j < current.len() ==> (#[trigger] current[j]).name != s.name
}

/// An artifact of that name is in the list.
pub open spec fn listed(name: Seq<char>, list: Seq<SubjectModel>) -> bool {
    exists|i: int| 0 <= i < list.len() && (#[trigger] list[i]).name == name
}

/// An artifact that is the last of its name is found under it.
proof fn lemma_on_disk(s: SubjectModel, current: Seq<SubjectModel>)
    requires
        last_on_disk(s, current),
    ensures
        latest(subject_names(current), s.name) matches Some(k) && current[k].sha256 == s.sha256,
{
    let k = choose|k: int|
        #![trigger current[k]]
        0 <= k < current.len() && current[k] == s && forall|j: int|
            k < j < current.len() ==> (#[trigger] current[j]).name != s.name;
    lemma_last_of_name(current, s.name, k);
}

/// A listed name is among the names.
proof fn lemma_listed_name(name: Seq<char>, list: Seq<SubjectModel>)
    requires
        listed(name, list),
    ensures
        subject_names(list).contains(name),
{
    let i = choose|i: int| 0 <= i < list.len() && (#[trigger] list[i]).name == name;
    assert(subject_names(list)[i] == name);
}

/// Inputs that are as recorded, and artifacts that are as recorded, are all that it takes: host,
/// time, branch, dirt and schema may be anything.
pub proof fn nothing_else_is_held_against_a_release(
    dir: ReleaseModel,
    path: Seq<char>,
    m: ManifestModel,
    readings: ReadingsModel,
    now: MetadataModel,
    current: Seq<SubjectModel>,
    target: Seq<char>,
)
    requires
        dir.exists && dir.is_directory,
        artifacts_found(dir.files) == Ok::<Seq<SubjectModel>, ErrorModel>(current),
        metadata_of(readings) == Ok::<MetadataModel, ErrorModel>(now),
        forall|i: int| 0 <= i < m.subject.len() ==> last_on_disk(#[trigger] m.subject[i], current),
        forall|k: int| 0 <= k < current.len() ==> listed((#[trigger] current[k]).name, m.subject),
        m.target == target,
        m.inputs.git_revision == now.git_revision,
        m.inputs.rustc == now.rustc,
        m.inputs.cargo == now.cargo,
        m.inputs.soroban_sdk == now.soroban_sdk,
        m.inputs.toolchain_channel == now.toolchain_channel,
        profile_json(m.inputs.profile) == profile_json(now.profile),
    ensures
        verified(dir, path, ManifestReadingModel::Parsed(m), Ok(readings), target) == Ok::<
            (ManifestModel, MetadataModel),
            ErrorModel,
        >((m, now)),
{
    assert forall|i: int| 0 <= i < m.subject.len() implies match latest(
        subject_names(current),
        (#[trigger] m.subject[i]).name,
    ) {
        Some(k) => current[k].sha256 == m.subject[i].sha256,
        None => false,
    } by {
        assert(last_on_disk(m.subject[i], current));
        lemma_on_disk(m.subject[i], current);
    }
    assert forall|k: int| 0 <= k < current.len() implies subject_names(m.subject).contains(
        (#[trigger] current[k]).name,
    ) by {
        assert(listed(current[k].name, m.subject));
        lemma_listed_name(current[k].name, m.subject);
    }
    cleared_exactly_if(dir, path, ManifestReadingModel::Parsed(m), Ok(readings), target);
    assert(recorded_are_intact(m.subject, current));
    assert(all_are_recorded(m.subject, current));
    assert(inputs_match(m, now, target));
}

/// The first input that differs is reported under its name, with what is recorded and what is found
/// now, in a fixed order. A channel that there is none of is shown as `<none>`.
pub proof fn drift_is_reported_in_order(m: ManifestModel, now: MetadataModel, target: Seq<char>)
    ensures
        ({
            let r = first_drift(m, now, target);
            let said = |field: Seq<char>, recorded: Seq<char>, actual: Seq<char>|
                Some(ErrorModel::MetadataMismatch { field, recorded, actual });
            if m.target != target {
                r == said("target"@, m.target, target)
            } else if m.inputs.git_revision != now.git_revision {
                r == said("git_revision"@, m.inputs.git_revision, now.git_revision)
            } else if m.inputs.rustc != now.rustc {
                r == said("rustc"@, m.inputs.rustc, now.rustc)
            } else if m.inputs.cargo != now.cargo {
                r == said("cargo"@, m.inputs.cargo, now.cargo)
            } else if m.inputs.soroban_sdk != now.soroban_sdk {
                r == said("soroban_sdk"@, m.inputs.soroban_sdk, now.soroban_sdk)
            } else if m.inputs.toolchain_channel != now.toolchain_channel {
                r is Some && r.unwrap() is MetadataMismatch && r.unwrap()->field
                    == "toolchain_channel"@ && r.unwrap()->recorded == (
                match m.inputs.toolchain_channel {
                    Some(s) => s,
                    None => "<none>"@,
                }) && r.unwrap()->MetadataMismatch_actual == (match now.toolchain_channel {
                    Some(s) => s,
                    None => "<none>"@,
                })
            } else if profile_json(m.inputs.profile) != profile_json(now.profile) {
                r == said(
                    "profile"@,
                    profile_json(m.inputs.profile),
                    profile_json(now.profile),
                )
            } else {
                r is None
            }
        }),
{
}

/// The versions and the revision are held against what is found now as they were printed: a
/// manifest that was generated under one output of a tool is refused under any other.
pub proof fn another_tool_is_refused(
    dir: ReleaseModel,
    a: ReadingsModel,
    b: ReadingsModel,
    target: Seq<char>,
    time: Seq<char>,
    later: ReleaseModel,
    path: Seq<char>,
    lead: Seq<char>,
    x: Seq<char>,
    tail: Seq<char>,
    lead2: Seq<char>,
    y: Seq<char>,
    tail2: Seq<char>,
)
    requires
        generated(dir, Ok(a), target, time) is Ok,
        x != y,
        (shows(a.cargo, lead, x, tail) && shows(b.cargo, lead2, y, tail2)) || (shows(
            a.rustc,
            lead,
            x,
            tail,
        ) && shows(b.rustc, lead2, y, tail2)),
    ensures
        verified(
            later,
            path,
            ManifestReadingModel::Parsed(generated(dir, Ok(a), target, time)->Ok_0),
            Ok(b),
            target,
        ) is Err,
{
    let m = generated(dir, Ok(a), target, time)->Ok_0;
    versions_are_what_was_printed(a, lead, x, tail);
    versions_are_what_was_printed(b, lead2, y, tail2);
    let r = verified(later, path, ManifestReadingModel::Parsed(m), Ok(b), target);
    if r is Ok {
        cleared_means_nothing_drifted(later, path, m, Ok(b), target);
    }
}

/// Of the recorded artifacts, the first with which anything is wrong is reported: as missing where
/// no artifact on disk has its name, and with both digests where the last one that has differs.
pub proof fn first_broken_artifact_is_reported(
    recorded: Seq<SubjectModel>,
    current: Seq<SubjectModel>,
    at: int,
    k: int,
)
    requires
        0 <= at <= recorded.len(),
        // All before are intact.
        forall|i: int|
            0 <= i < at ==> exists|j: int|
                #![trigger current[j]]
                0 <= j < current.len() && current[j] == (#[trigger] recorded[i]) && forall|l: int|
                    j < l < current.len() ==> (#[trigger] current[l]).name != recorded[i].name,
    ensures
        at == recorded.len() ==> integrity_problem(recorded, current) is None,
        at < recorded.len() && (forall|l: int|
            0 <= l < current.len() ==> (#[trigger] current[l]).name != recorded[at].name)
            ==> integrity_problem(recorded, current) == Some(
            ErrorModel::MissingArtifact { name: recorded[at].name },
        ),
        at < recorded.len() && 0 <= k < current.len() && current[k].name == recorded[at].name
            && current[k].sha256 != recorded[at].sha256 && (forall|l: int|
            k < l < current.len() ==> (#[trigger] current[l]).name != recorded[at].name)
            ==> integrity_problem(recorded, current) == Some(
            ErrorModel::HashMismatch {
                name: recorded[at].name,
                expected: recorded[at].sha256,
                actual: current[k].sha256,
            },
        ),
    decreases at,
{
    let names = subject_names(current);
    if at > 0 {
        let j = choose|j: int|
            #![trigger current[j]]
            0 <= j < current.len() && current[j] == recorded[0] && forall|l: int|
                j < l < current.len() ==> (#[trigger] current[l]).name != recorded[0].name;
        lemma_last_of_name(current, recorded[0].name, j);
        assert(subject_problem(recorded[0], current) is None);
        let rest = recorded.skip(1);
        assert forall|i: int| 0 <= i < at - 1 implies exists|j: int|
            #![trigger current[j]]
            0 <= j < current.len() && current[j] == (#[trigger] rest[i]) && forall|l: int|
                j < l < current.len() ==> (#[trigger] current[l]).name != rest[i].name by {
            assert(rest[i] == recorded[i + 1]);
        }
        first_broken_artifact_is_reported(rest, current, at - 1, k);
    } else if at < recorded.len() {
        let name = recorded[at].name;
        lemma_latest(names, name);
        if (forall|l: int| 0 <= l < current.len() ==> (#[trigger] current[l]).name != name) {
            if names.contains(name) {
                let i = choose|i: int| 0 <= i < names.len() && names[i] == name;
                assert(current[i].name == name);
            }
        }
        if 0 <= k < current.len() && current[k].name == name && (forall|l: int|
            k < l < current.len() ==> (#[trigger] current[l]).name != name) {
            lemma_last_of_name(current, name, k);
        }
    }
}

/// The last artifact of a name is the one that is found under it.
proof fn lemma_last_of_name(current: Seq<SubjectModel>, name: Seq<char>, k: int)
    requires
        0 <= k < current.len(),
        current[k].name == name,
        forall|l: int| k < l < current.len() ==> (#[trigger] current[l]).name != name,
    ensures
        latest(subject_names(current), name) == Some(k),
{
    let names = subject_names(current);
    lemma_latest(names, name);
    assert(names[k] == name);
    assert(names.contains(name));
    let at = latest(names, name).unwrap();
    assert(names[at] == current[at].name);
    if at < k {
        assert(names[k] != name);
    }
}

/// Where an artifact on disk is not recorded, one such is reported: the one whose name comes first.
pub proof fn first_unlisted_artifact_is_reported(
    recorded: Seq<SubjectModel>,
    current: Seq<SubjectModel>,
    k: int,
)
    ensures
        completeness_problem(recorded, current) is None <==> forall|l: int|
            0 <= l < current.len() ==> exists|i: int|
                #![trigger recorded[i]]
                0 <= i < recorded.len() && recorded[i].name == (#[trigger] current[l]).name,
        completeness_problem(recorded, current) matches Some(e) ==> e is UnlistedArtifact && (exists|
            l: int,
        |
            0 <= l < current.len() && (#[trigger] current[l]).name == e->UnlistedArtifact_name)
            && forall|i: int|
            0 <= i < recorded.len() ==> (#[trigger] recorded[i]).name != e->UnlistedArtifact_name,
        completeness_problem(recorded, current) matches Some(e) ==> 0 <= k < current.len() && (forall|
            i: int,
        |
            0 <= i < recorded.len() ==> (#[trigger] recorded[i]).name != current[k].name)
            ==> !precedes(current[k].name, e->UnlistedArtifact_name),
{
    let disk = subject_names(current);
    let known = subject_names(recorded);
    let list = name_list(disk);
    lemma_name_list(disk);
    lemma_unlisted(list, known);
    let r = completeness_problem(recorded, current);
    assert forall|n: Seq<char>| #[trigger] known.contains(n) <==> exists|i: int|
        0 <= i < recorded.len() && (#[trigger] recorded[i]).name == n by {
        if known.contains(n) {
            let i = choose|i: int| 0 <= i < known.len() && known[i] == n;
            assert(recorded[i].name == n);
        }
        if exists|i: int| 0 <= i < recorded.len() && (#[trigger] recorded[i]).name == n {
            let i = choose|i: int| 0 <= i < recorded.len() && (#[trigger] recorded[i]).name == n;
            assert(known[i] == n);
        }
    }
    if r is None {
        assert forall|l: int| 0 <= l < current.len() implies exists|i: int|
            #![trigger recorded[i]]
            0 <= i < recorded.len() && recorded[i].name == (#[trigger] current[l]).name by {
            let n = current[l].name;
            assert(disk[l] == n);
            assert(disk.contains(n));
            assert(list.contains(n));
            let h = choose|h: int| 0 <= h < list.len() && list[h] == n;
            assert(known.contains(list[h]));
        }
    } else {
        let at = choose|at: int|
            0 <= at < list.len() && r == Some(ErrorModel::UnlistedArtifact { name: list[at] })
                && !known.contains(#[trigger] list[at]) && forall|j: int|
                0 <= j < at ==> known.contains(#[trigger] list[j]);
        let n = list[at];
        assert(list.contains(n));
        assert(disk.contains(n));
        let l = choose|l: int| 0 <= l < disk.len() && disk[l] == n;
        assert(current[l].name == n);
        if 0 <= k < current.len() && (forall|i: int|
            0 <= i < recorded.len() ==> (#[trigger] recorded[i]).name != current[k].name) {
            let q = current[k].name;
            assert(disk[k] == q);
            assert(disk.contains(q));
            assert(list.contains(q));
            let h = choose|h: int| 0 <= h < list.len() && list[h] == q;
            assert(!known.contains(q));
            assert(at <= h);
            if at < h {
                assert(precedes(list[at], list[h]));
                crate::sorting::lemma_precedes_one_way(list[at], list[h]);
            } else {
                crate::sorting::lemma_precedes_irreflexive(n);
            }
        }
    }
}

/// The first name that is not known is reported.
proof fn lemma_unlisted(list: Seq<Seq<char>>, known: Seq<Seq<char>>)
    ensures
        unlisted(list, known) is None <==> forall|j: int|
            0 <= j < list.len() ==> known.contains(#[trigger] list[j]),
        unlisted(list, known) is Some ==> exists|at: int|
            0 <= at < list.len() && unlisted(list, known) == Some(
                ErrorModel::UnlistedArtifact { name: list[at] },
            ) && !known.contains(#[trigger] list[at]) && forall|j: int|
                0 <= j < at ==> known.contains(#[trigger] list[j]),
    decreases list.len(),
{
    if list.len() > 0 {
        let rest = list.skip(1);
        lemma_unlisted(rest, known);
        assert(forall|j: int| 0 <= j < rest.len() ==> rest[j] == list[j + 1]);
        if known.contains(list[0]) {
            if unlisted(rest, known) is None {
                assert forall|j: int| 0 <= j < list.len() implies known.contains(
                    #[trigger] list[j],
                ) by {
                    if j > 0 {
                        assert(known.contains(rest[j - 1]));
                    }
                }
            } else {
                let at = choose|at: int|
                    0 <= at < rest.len() && unlisted(rest, known) == Some(
                        ErrorModel::UnlistedArtifact { name: rest[at] },
                    ) && !known.contains(#[trigger] rest[at]) && forall|j: int|
                        0 <= j < at ==> known.contains(#[trigger] rest[j]);
                assert(list[at + 1] == rest[at]);
                assert forall|j: int| 0 <= j < at + 1 implies known.contains(#[trigger] list[j]) by {
                    if j > 0 {
                        assert(known.contains(rest[j - 1]));
                    }
                }
            }
        }
    }
}

/// What stands in the way of a clearance is told in a fixed order: the directory, the manifest, the
/// files, broken artifacts, artifacts that are not recorded, the workspace, the inputs, drift.
pub proof fn verifying_fails_in_order(
    dir: ReleaseModel,
    path: Seq<char>,
    manifest: ManifestReadingModel,
    workspace: Result<ReadingsModel, ErrorModel>,
    target: Seq<char>,
    fault: ErrorModel,
)
    ensures
        ({
            let r = verified(dir, path, manifest, workspace, target);
            let failed = |e: ErrorModel| r == Err::<(ManifestModel, MetadataModel), ErrorModel>(e);
            if !dir.exists {
                failed(ErrorModel::ReleaseDirMissing(dir.path))
            } else if !dir.is_directory {
                failed(ErrorModel::NotADirectory(dir.path))
            } else if manifest is Missing {
                failed(ErrorModel::ManifestMissing(path))
            } else if manifest is Unreadable {
                failed(
                    ErrorModel::Io {
                        path: manifest->Unreadable_0.path,
                        source: manifest->Unreadable_0.source,
                    },
                )
            } else if manifest is Unparseable {
                failed(ErrorModel::Json(manifest->Unparseable_0))
            } else {
                let m = manifest->Parsed_0;
                match artifacts_found(dir.files) {
                    Err(e) => failed(e),
                    Ok(current) => match integrity_problem(m.subject, current) {
                        Some(e) => failed(e),
                        None => match completeness_problem(m.subject, current) {
                            Some(e) => failed(e),
                            None => match workspace {
                                Err(e) => failed(e),
                                Ok(readings) => match metadata_of(readings) {
                                    Err(e) => failed(e),
                                    Ok(now) => match first_drift(m, now, target) {
                                        Some(e) => failed(e),
                                        None => r is Ok,
                                    },
                                },
                            },
                        },
                    },
                }
            }
        }),
{
}

/// Generating warns of a dirty tree and of nothing else. Verifying warns of a branch that is not
/// the recorded one, where there are both, and of a tree that was recorded as dirty.
pub proof fn warnings_are_of_branch_and_dirt(m: ManifestModel, now: MetadataModel)
    ensures
        generate_warnings(m).len() == (if m.inputs.git_dirty {
            1nat
        } else {
            0
        }),
        verify_warnings(m, now).len() == (if m.inputs.git_ref is Some && now.git_ref is Some
            && m.inputs.git_ref != now.git_ref {
            1nat
        } else {
            0
        }) + (if m.inputs.git_dirty {
            1nat
        } else {
            0
        }),
        m.inputs.git_ref is Some && now.git_ref is Some && m.inputs.git_ref != now.git_ref
            ==> verify_warnings(m, now)[0] == "fluxora-provenance: warning: git ref drifted ("@
            + m.inputs.git_ref.unwrap() + " -> "@ + now.git_ref.unwrap()
            + "); the revision is still pinned"@,
{
}

/// A profile is one JSON object, with a member for each setting, in order: the key as a JSON
/// string, a colon, and the JSON of the value.
pub proof fn profiles_are_objects(first: SettingModel, rest: Seq<SettingModel>)
    ensures
        profile_json(Seq::empty()) == seq!['{', '}'],
        profile_json(seq![first]) == seq!['{'] + json_quoted(first.key) + seq![':'] + first.json
            + seq!['}'],
        rest.len() > 0 ==> profile_json(seq![first] + rest) == seq!['{'] + json_quoted(first.key)
            + seq![':'] + first.json + seq![','] + profile_json(rest).skip(1),
{
    reveal_strlit("{");
    reveal_strlit("}");
    reveal_strlit(":");
    reveal_strlit(",");
    assert("{"@ =~= seq!['{']);
    assert("}"@ =~= seq!['}']);
    assert(":"@ =~= seq![':']);
    assert(","@ =~= seq![',']);
    let rule = |v: SettingModel| setting_text(v);
    let none = Seq::<SettingModel>::empty();
    let none_rows = Seq::<Seq<char>>::empty();
    let row = setting_text(first);
    assert(none.map_values(rule) =~= none_rows);
    crate::laws::lettering::joining_separates(row, none_rows, ","@);
    assert(profile_json(none) =~= seq!['{', '}']);
    assert(seq![first].map_values(rule) =~= seq![row]);
    assert(profile_json(seq![first]) =~= seq!['{'] + json_quoted(first.key) + seq![':'] + first.json
        + seq!['}']);
    if rest.len() > 0 {
        let rows = rest.map_values(rule);
        crate::laws::lettering::joining_separates(row, rows, ","@);
        assert((seq![first] + rest).map_values(rule) =~= seq![row] + rows);
        assert(profile_json(rest).skip(1) =~= joined(rows, ","@) + seq!['}']);
        assert(profile_json(seq![first] + rest) =~= seq!['{'] + row + seq![','] + (joined(
            rows,
            ","@,
        ) + seq!['}']));
        assert(seq!['{'] + row =~= seq!['{'] + json_quoted(first.key) + seq![':'] + first.json);
    }
}

} // verus!
