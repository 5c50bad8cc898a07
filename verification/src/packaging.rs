//! The names under which the contract is packaged and deployed.
//!
//! Deployment tooling goes by these names, so an accidental rename must not pass unnoticed.
use crate::encoding::{lossy_text, text_from_utf8_lossy};
use crate::json_doc::{json_shapes, json_tree, member_of, read_json, JsonNode, JsonShape};
use crate::text::{same_text, two};
use vstd::prelude::*;

verus! {

/// The name of the package.
pub const EXPECTED_PACKAGE_NAME: &'static str = "fluxora-stream";

/// The name of the library target, which becomes the stem of the wasm file's name.
pub const EXPECTED_TARGET_NAME: &'static str = "fluxora_stream";

/// The name of the wasm file.
pub const EXPECTED_WASM_BASENAME: &'static str = "fluxora_stream.wasm";

/// What came of asking cargo for the metadata of the workspace.
#[derive(Clone, Debug, PartialEq, Eq)]
pub enum MetadataOutcome {
    /// Cargo could not be started, for this reason.
    NotStarted(String),
    /// Cargo ended with this status and printed these bytes.
    Finished { success: bool, status: String, stdout: Vec<u8>, stderr: Vec<u8> },
}

/// The metadata that cargo printed, or what is wrong.
pub open spec fn metadata_in(outcome: MetadataOutcome) -> Result<JsonShape, Seq<char>> {
    match outcome {
        MetadataOutcome::NotStarted(e) => Err(
            "failed to spawn `cargo metadata` — is Cargo in PATH?: "@ + e@,
        ),
        MetadataOutcome::Finished { success, status, stdout, stderr } => if !success {
            Err(
                "`cargo metadata` exited with status "@ + status@ + "\nstderr:\n"@ + lossy_text(
                    stderr@,
                ),
            )
        } else {
            match json_tree(stdout@) {
                Ok(doc) => Ok(doc),
                Err(problem) => Err(
                    "`cargo metadata` output was not valid JSON — this is a Cargo bug: "@ + problem,
                ),
            }
        },
    }
}

/// The packages of the workspace, where the metadata lists them.
pub open spec fn packages_in(meta: JsonShape) -> Option<Seq<JsonShape>> {
    match member_of(meta, "packages"@) {
        JsonShape::List(list) => Some(list),
        _ => None,
    }
}

/// The node is an object that goes by the name.
pub open spec fn goes_by(node: JsonShape, name: Seq<char>) -> bool {
    member_of(node, "name"@) == JsonShape::Text(name)
}

/// The node is a target that is built as a C dynamic library.
pub open spec fn is_cdylib(target: JsonShape) -> bool {
    match member_of(target, "kind"@) {
        JsonShape::List(kinds) => exists|i: int|
            0 <= i < kinds.len() && #[trigger] kinds[i] == JsonShape::Text("cdylib"@),
        _ => false,
    }
}

/// The first of the targets that is built as a C dynamic library goes by the name: it is this
/// name that the wasm file gets.
pub open spec fn cdylib_name(targets: Seq<JsonShape>) -> Option<Seq<char>>
    decreases targets.len(),
{
    if targets.len() == 0 {
        None
    } else if is_cdylib(targets[0]) {
        match member_of(targets[0], "name"@) {
            JsonShape::Text(name) => Some(name),
            _ => None,
        }
    } else {
        cdylib_name(targets.skip(1))
    }
}

/// The name of the library target of a package, where it has one.
pub open spec fn target_name_in(package: JsonShape) -> Option<Seq<char>> {
    match member_of(package, "targets"@) {
        JsonShape::List(targets) => cdylib_name(targets),
        _ => None,
    }
}

/// The package cannot be published: it is said outright, or the list of registries is empty.
pub open spec fn unpublishable(package: JsonShape) -> bool {
    match member_of(package, "publish"@) {
        JsonShape::Bool(b) => !b,
        JsonShape::List(registries) => registries.len() == 0,
        _ => false,
    }
}

/// The metadata that cargo printed, or what is wrong.
pub fn cargo_metadata(outcome: &MetadataOutcome) -> (r: Result<JsonNode, String>)
    ensures
        match r {
            Ok(doc) => metadata_in(*outcome) == Ok::<JsonShape, Seq<char>>(doc.shape()),
            Err(text) => metadata_in(*outcome) == Err::<JsonShape, Seq<char>>(text@),
        },
{
    match outcome {
        MetadataOutcome::NotStarted(e) => Err(
            two("failed to spawn `cargo metadata` — is Cargo in PATH?: ", e),
        ),
        MetadataOutcome::Finished { success, status, stdout, stderr } => {
            if !*success {
                let mut text = two("`cargo metadata` exited with status ", status);
                text.append("\nstderr:\n");
                text.append(&text_from_utf8_lossy(stderr));
                return Err(text);
            }
            match read_json(stdout) {
                Ok(doc) => Ok(doc),
                Err(problem) => Err(
                    two(
                        "`cargo metadata` output was not valid JSON — this is a Cargo bug: ",
                        &problem,
                    ),
                ),
            }
        },
    }
}

/// The packages of the workspace, where the metadata lists them.
pub fn packages(meta: &JsonNode) -> (r: Option<&Vec<JsonNode>>)
    ensures
        match r {
            Some(list) => packages_in(meta.shape()) == Some(json_shapes(list@)),
            None => packages_in(meta.shape()) is None,
        },
{
    meta.list_at("packages")
}

/// The first package that goes by the name.
pub fn find_package<'a>(list: &'a [JsonNode], name: &str) -> (r: Option<&'a JsonNode>)
    ensures
        match r {
            Some(package) => exists|i: int|
                0 <= i < list@.len() && #[trigger] list@[i] == *package && goes_by(
                    package.shape(),
                    name@,
                ) && forall|j: int| 0 <= j < i ==> !goes_by((#[trigger] list@[j]).shape(), name@),
            None => forall|j: int|
                0 <= j < list@.len() ==> !goes_by((#[trigger] list@[j]).shape(), name@),
        },
{
    for i in 0..list.len()
        invariant
            forall|j: int| 0 <= j < i ==> !goes_by((#[trigger] list@[j]).shape(), name@),
    {
        if let Some(found) = list[i].text_at("name") {
            if same_text(found, name) {
                assert(goes_by(list@[i as int].shape(), name@));
                return Some(&list[i]);
            }
        }
        assert(!goes_by(list@[i as int].shape(), name@));
    }
    None
}

/// Whether a target is built as a C dynamic library.
fn target_is_cdylib(target: &JsonNode) -> (r: bool)
    ensures
        r == is_cdylib(target.shape()),
{
    match target.list_at("kind") {
        Some(kinds) => {
            let ghost all = json_shapes(kinds@);
            for i in 0..kinds.len()
                invariant
                    all == json_shapes(kinds@),
                    member_of(target.shape(), "kind"@) == JsonShape::List(all),
                    forall|j: int|
                        0 <= j < i ==> #[trigger] all[j] != JsonShape::Text("cdylib"@),
            {
                assert(all[i as int] == kinds@[i as int].shape());
                if let JsonNode::Text(kind) = &kinds[i] {
                    if same_text(kind, "cdylib") {
                        assert(all[i as int] == JsonShape::Text("cdylib"@));
                        return true;
                    }
                }
            }
            false
        },
        None => false,
    }
}

/// The name of the library target of a package, where it has one.
pub fn cdylib_target_name(package: &JsonNode) -> (r: Option<&String>)
    ensures
        match r {
            Some(name) => target_name_in(package.shape()) == Some(name@),
            None => target_name_in(package.shape()) is None,
        },
{
    match package.list_at("targets") {
        Some(targets) => {
            let ghost all = json_shapes(targets@);
            assert(all.skip(0) == all);
            for i in 0..targets.len()
                invariant
                    all == json_shapes(targets@),
                    member_of(package.shape(), "targets"@) == JsonShape::List(all),
                    cdylib_name(all) == cdylib_name(all.skip(i as int)),
            {
                assert(all.skip(i as int)[0] == targets@[i as int].shape());
                assert(all.skip(i as int).skip(1) == all.skip(i + 1));
                if target_is_cdylib(&targets[i]) {
                    return targets[i].text_at("name");
                }
            }
            None
        },
        None => None,
    }
}

/// Whether a package cannot be published.
pub fn is_not_publishable(package: &JsonNode) -> (r: bool)
    ensures
        r == unpublishable(package.shape()),
{
    match package.get("publish") {
        Some(JsonNode::Bool(b)) => !*b,
        Some(node) => match node {
            JsonNode::List(registries) => registries.len() == 0,
            _ => false,
        },
        None => false,
    }
}

/// The name of the wasm file of a target.
pub fn wasm_basename(target: &str) -> (r: String)
    ensures
        r@ == target@ + ".wasm"@,
{
    two(target, ".wasm")
}

/// A wasm file has the expected name exactly if its target has.
pub proof fn basename_is_expected_exactly_if(target: Seq<char>)
    ensures
        target + ".wasm"@ == EXPECTED_WASM_BASENAME@ <==> target == EXPECTED_TARGET_NAME@,
{
    reveal_strlit(".wasm");
    reveal_strlit("fluxora_stream");
    reveal_strlit("fluxora_stream.wasm");
    let whole = target + ".wasm"@;
    assert(EXPECTED_WASM_BASENAME@ =~= EXPECTED_TARGET_NAME@ + ".wasm"@);
    if whole == EXPECTED_WASM_BASENAME@ {
        assert(target =~= whole.take(whole.len() - 5));
        assert(EXPECTED_TARGET_NAME@ =~= EXPECTED_WASM_BASENAME@.take(
            EXPECTED_WASM_BASENAME@.len() - 5,
        ));
    }
}

} // verus!
