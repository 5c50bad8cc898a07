//! What is said of a failure holds all that is known of it.
use crate::encoding::debug_quoted;
use crate::failure::{error_text, ErrorModel};
use crate::json_text::{json_escape, json_quoted};
use vstd::prelude::*;

verus! {

/// Failures about a path end with the path, whole.
pub proof fn paths_are_named_whole(p: Seq<char>, source: Seq<char>)
    ensures
        error_text(ErrorModel::ReleaseDirMissing(p)) == "release dir does not exist: "@ + p,
        error_text(ErrorModel::NotADirectory(p)) == "release path is not a directory: "@ + p,
        error_text(ErrorModel::NoWasmArtifacts(p)) == "no *.wasm artifacts found in "@ + p,
        error_text(ErrorModel::WorkspaceRootNotFound(p))
            == "could not find a workspace Cargo.toml (with [workspace]) walking up from "@ + p,
        error_text(ErrorModel::ManifestMissing(p)) == "provenance manifest not found: "@ + p,
        error_text(ErrorModel::Io { path: p, source }) == p + ": "@ + source,
{
}

/// Failures that come from elsewhere end with what was said there, whole.
pub proof fn reasons_are_passed_on_whole(e: Seq<char>, tool: Seq<char>)
    ensures
        error_text(ErrorModel::Utf8(e)) == "command output was not valid UTF-8: "@ + e,
        error_text(ErrorModel::Toml(e)) == "TOML parse error: "@ + e,
        error_text(ErrorModel::Json(e)) == "JSON error: "@ + e,
        error_text(ErrorModel::Git(e)) == "git: "@ + e,
        error_text(ErrorModel::ToolVersion(tool, e)) == tool + " --version failed: "@ + e,
        error_text(ErrorModel::HostParse(e))
            == "could not read the host triple from `rustc -vV`: "@ + debug_quoted(e),
        error_text(ErrorModel::SdkVersionNotFound) == "soroban-sdk not found in Cargo.lock"@,
{
}

/// A release that does not hold to its manifest is refused with the name of the artifact or input,
/// and with what is recorded and what is found, whole.
pub proof fn mismatches_show_both_sides(a: Seq<char>, b: Seq<char>, c: Seq<char>)
    ensures
        error_text(ErrorModel::MissingArtifact { name: a })
            == "artifact listed in the manifest is missing from the release dir: "@ + a,
        error_text(ErrorModel::HashMismatch { name: a, expected: b, actual: c })
            == "sha256 mismatch for "@ + a + ": manifest "@ + b + " != on-disk "@ + c
            + " (rebuild and regenerate, or investigate before releasing)"@,
        error_text(ErrorModel::UnlistedArtifact { name: a })
            == "artifact present in the release dir is not listed in the manifest: "@ + a
            + " (regenerate provenance so every contract is covered)"@,
        error_text(ErrorModel::MetadataMismatch { field: a, recorded: b, actual: c }) == a
            + " drifted since provenance was generated: manifest "@ + b + " != current "@ + c,
{
}

/// A JSON string is its characters one by one in quotes: quote and backslash behind a backslash,
/// the control characters by their letter or their number, and all others as they are.
pub proof fn json_strings_go_by_character(s: Seq<char>, c: char)
    ensures
        json_quoted(Seq::empty()) == seq!['"', '"'],
        json_quoted(s.push(c)) == json_quoted(s).drop_last() + json_escape(c) + seq!['"'],
        c == '"' ==> json_escape(c) == seq!['\\', '"'],
        c == '\\' ==> json_escape(c) == seq!['\\', '\\'],
        c == '\n' ==> json_escape(c) == seq!['\\', 'n'],
        c == '\r' ==> json_escape(c) == seq!['\\', 'r'],
        c == '\t' ==> json_escape(c) == seq!['\\', 't'],
        c as int == 8 ==> json_escape(c) == seq!['\\', 'b'],
        c as int == 12 ==> json_escape(c) == seq!['\\', 'f'],
        c as int >= 32 && c != '"' && c != '\\' ==> json_escape(c) == seq![c],
        (c as int) < 32 && c as int != 8 && c as int != 9 && c as int != 10 && c as int != 12
            && c as int != 13 ==> json_escape(c).len() == 6 && json_escape(c).take(4) == seq![
            '\\',
            'u',
            '0',
            '0',
        ] && 16 * crate::laws::ordering::hex_worth(json_escape(c)[4])
            + crate::laws::ordering::hex_worth(json_escape(c)[5]) == c as int,
{
    let rule = |c: char| json_escape(c);
    let rows = s.map_values(rule);
    let none = Seq::<char>::empty();
    let none_rows = Seq::<Seq<char>>::empty();
    assert(none.map_values(rule) =~= none_rows);
    assert(none_rows.flatten() =~= none);
    assert(json_quoted(none) =~= seq!['"', '"']);
    assert(s.push(c).map_values(rule) =~= rows.push(json_escape(c)));
    rows.lemma_flatten_push(json_escape(c));
    assert(json_quoted(s).drop_last() =~= seq!['"'] + rows.flatten());
    assert(json_quoted(s.push(c)) =~= json_quoted(s).drop_last() + json_escape(c) + seq!['"']);
    if (c as int) < 32 && c as int != 8 && c as int != 9 && c as int != 10 && c as int != 12 && c as int
        != 13 {
        let n = c as u8;
        assert(n as int == c as int);
        assert(json_escape(c).take(4) =~= seq!['\\', 'u', '0', '0']);
    }
}

} // verus!
