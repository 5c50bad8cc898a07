//! What is read of package metadata and of the text of a settings file.
use crate::encoding::lossy_text;
use crate::json_doc::{json_tree, member_of, JsonShape};
use crate::laws::lettering::{free_of, lines_are_what_line_feeds_end};
use crate::packaging::{
    cdylib_name, goes_by, is_cdylib, metadata_in, packages_in, target_name_in, unpublishable,
    MetadataOutcome, EXPECTED_PACKAGE_NAME, EXPECTED_TARGET_NAME, EXPECTED_WASM_BASENAME,
};
use crate::profile_settings::{has_line, is_section, setting_line, setting_problem};
use crate::text::{first_at, holds_text, line_list, stands_at, trimmed};
use vstd::prelude::*;

verus! {

/// The metadata is what cargo printed, read as JSON, exactly where cargo succeeded and printed
/// JSON. Otherwise all that is known of the failure is told.
pub proof fn metadata_is_what_cargo_printed(outcome: MetadataOutcome)
    ensures
        match outcome {
            MetadataOutcome::NotStarted(e) => metadata_in(outcome) == Err::<JsonShape, Seq<char>>(
                "failed to spawn `cargo metadata` — is Cargo in PATH?: "@ + e@,
            ),
            MetadataOutcome::Finished { success, status, stdout, stderr } => {
                &&& !success ==> metadata_in(outcome) == Err::<JsonShape, Seq<char>>(
                    "`cargo metadata` exited with status "@ + status@ + "\nstderr:\n"@ + lossy_text(
                        stderr@,
                    ),
                )
                &&& success && json_tree(stdout@) is Ok ==> metadata_in(outcome) == json_tree(stdout@)
                &&& success && json_tree(stdout@) is Err ==> metadata_in(outcome) == Err::<
                    JsonShape,
                    Seq<char>,
                >(
                    "`cargo metadata` output was not valid JSON — this is a Cargo bug: "@
                        + json_tree(stdout@)->Err_0,
                )
            },
        },
{
}

/// The packages are the list under `packages`, all of it. A package goes by exactly the text under
/// its `name`.
pub proof fn packages_are_listed_by_name(
    meta: JsonShape,
    list: Seq<JsonShape>,
    package: JsonShape,
    name: Seq<char>,
    other: Seq<char>,
)
    ensures
        member_of(meta, "packages"@) == JsonShape::List(list) ==> packages_in(meta) == Some(list),
        member_of(meta, "packages"@) !is List ==> packages_in(meta) is None,
        member_of(package, "name"@) == JsonShape::Text(name) ==> (goes_by(package, other) <==> other
            == name),
        member_of(package, "name"@) !is Text ==> !goes_by(package, other),
{
}

/// The library target of a package is the first of its targets with `cdylib` among its kinds,
/// wherever among them it stands and whatever the other targets are.
pub proof fn library_target_is_the_first_cdylib(
    package: JsonShape,
    targets: Seq<JsonShape>,
    at: int,
    kinds: Seq<JsonShape>,
    k: int,
    name: Seq<char>,
)
    requires
        member_of(package, "targets"@) == JsonShape::List(targets),
        0 <= at <= targets.len(),
        forall|j: int, other: Seq<JsonShape>, l: int|
            #![trigger targets[j], other[l]]
            0 <= j < at && member_of(targets[j], "kind"@) == JsonShape::List(other) && 0 <= l
                < other.len() ==> other[l] != JsonShape::Text("cdylib"@),
    ensures
        at == targets.len() ==> target_name_in(package) is None,
        at < targets.len() && member_of(targets[at], "kind"@) == JsonShape::List(kinds) && 0 <= k
            < kinds.len() && kinds[k] == JsonShape::Text("cdylib"@) ==> {
            &&& member_of(targets[at], "name"@) == JsonShape::Text(name) ==> target_name_in(package)
                == Some(name)
            &&& member_of(targets[at], "name"@) !is Text ==> target_name_in(package) is None
        },
{
    assert forall|j: int| 0 <= j < at implies !is_cdylib(#[trigger] targets[j]) by {
        if is_cdylib(targets[j]) {
            let other = member_of(targets[j], "kind"@)->List_0;
            let l = choose|l: int|
                0 <= l < other.len() && #[trigger] other[l] == JsonShape::Text("cdylib"@);
            assert(other[l] != JsonShape::Text("cdylib"@));
        }
    }
    lemma_cdylib(targets, at);
}

/// Targets that are no such library are passed over.
proof fn lemma_cdylib(targets: Seq<JsonShape>, at: int)
    requires
        0 <= at <= targets.len(),
        forall|j: int| 0 <= j < at ==> !is_cdylib(#[trigger] targets[j]),
    ensures
        cdylib_name(targets) == cdylib_name(targets.skip(at)),
        at == targets.len() ==> cdylib_name(targets) is None,
    decreases at,
{
    if at == 0 {
        assert(targets.skip(0) =~= targets);
    } else {
        let rest = targets.skip(1);
        assert(!is_cdylib(targets[0]));
        assert forall|j: int| 0 <= j < at - 1 implies !is_cdylib(#[trigger] rest[j]) by {
            assert(rest[j] == targets[j + 1]);
        }
        lemma_cdylib(rest, at - 1);
        assert(rest.skip(at - 1) =~= targets.skip(at));
    }
}

/// A package without targets in a list has no library target. A package cannot be published
/// exactly if `publish` is false or an empty list.
pub proof fn publishing_is_off_exactly_if(package: JsonShape)
    ensures
        member_of(package, "targets"@) !is List ==> target_name_in(package) is None,
        unpublishable(package) <==> member_of(package, "publish"@) == JsonShape::Bool(false) || (
        member_of(package, "publish"@) is List && member_of(package, "publish"@)->List_0.len() == 0),
{
}

/// The contract is published under names that are fixed: the file is named after the target, with
/// the extension of its kind.
pub proof fn contract_goes_by_fixed_names()
    ensures
        EXPECTED_PACKAGE_NAME@ == "fluxora-stream"@,
        EXPECTED_TARGET_NAME@ == "fluxora_stream"@,
        EXPECTED_WASM_BASENAME@ == EXPECTED_TARGET_NAME@ + ".wasm"@,
{
    reveal_strlit("fluxora_stream");
    reveal_strlit("fluxora_stream.wasm");
    reveal_strlit(".wasm");
    assert(EXPECTED_WASM_BASENAME@ =~= EXPECTED_TARGET_NAME@ + ".wasm"@);
}

/// A section is all that stands behind the first place of its header, up to the first line behind
/// it that starts with a bracket, or up to the end.
pub proof fn sections_reach_to_the_next(
    contents: Seq<char>,
    header: Seq<char>,
    start: int,
    body: Seq<char>,
    rest: Seq<char>,
)
    requires
        first_at(contents, header, start),
        contents.skip(start + header.len()) == body + rest,
        rest.len() == 0 && !holds_text(body, seq!['\n', '[']) || first_at(
            body + rest,
            seq!['\n', '['],
            body.len() as int,
        ),
    ensures
        is_section(contents, header, body),
{
    reveal_strlit("\n[");
    assert("\n["@ =~= seq!['\n', '[']);
    let tail = contents.skip(start + header.len());
    if rest.len() == 0 && !holds_text(body, "\n["@) {
        assert(tail =~= body);
    } else {
        assert(tail.take(body.len() as int) =~= body);
        assert(stands_at(tail, "\n["@, body.len() as int));
        assert(holds_text(tail, "\n["@));
    }
}

/// There is one section under a header, if the header is there, and none if it is not.
pub proof fn sections_are_unique(
    contents: Seq<char>,
    header: Seq<char>,
    one: Seq<char>,
    other: Seq<char>,
)
    requires
        is_section(contents, header, one),
        is_section(contents, header, other),
    ensures
        one == other,
        holds_text(contents, header),
{
    let start = choose|start: int| #[trigger]
        first_at(contents, header, start) && {
            let tail = contents.skip(start + header.len());
            if holds_text(tail, "\n["@) {
                first_at(tail, "\n["@, one.len() as int) && one == tail.take(one.len() as int)
            } else {
                one == tail
            }
        };
    let again = choose|start: int| #[trigger]
        first_at(contents, header, start) && {
            let tail = contents.skip(start + header.len());
            if holds_text(tail, "\n["@) {
                first_at(tail, "\n["@, other.len() as int) && other == tail.take(other.len() as int)
            } else {
                other == tail
            }
        };
    lemma_first_is_one(contents, header, start, again);
    assert(stands_at(contents, header, start));
    let tail = contents.skip(start + header.len());
    if holds_text(tail, "\n["@) {
        lemma_first_is_one(tail, "\n["@, one.len() as int, other.len() as int);
    }
}

/// There is one first place.
proof fn lemma_first_is_one(s: Seq<char>, part: Seq<char>, i: int, j: int)
    requires
        first_at(s, part, i),
        first_at(s, part, j),
    ensures
        i == j,
{
    if i < j {
        assert(!stands_at(s, part, i));
    } else if j < i {
        assert(!stands_at(s, part, j));
    }
}

/// A section has a setting exactly if one of its lines, without the white space around it, is the
/// key, an equals sign between spaces, and the value. Which line it is does not matter.
pub proof fn settings_stand_on_a_line(
    line: Seq<char>,
    rest: Seq<char>,
    key: Seq<char>,
    value: Seq<char>,
)
    requires
        free_of(line, '\n'),
        line.len() == 0 || line[line.len() - 1] != '\r',
    ensures
        has_line(line + seq!['\n'] + rest, setting_line(key, value)) <==> trimmed(line) == key + seq![
            ' ',
            '=',
            ' ',
        ] + value || has_line(rest, setting_line(key, value)),
        line.len() > 0 ==> (has_line(line, setting_line(key, value)) <==> trimmed(line) == key + seq![
            ' ',
            '=',
            ' ',
        ] + value),
        !has_line(Seq::empty(), setting_line(key, value)),
{
    reveal_strlit(" = ");
    assert(" = "@ =~= seq![' ', '=', ' ']);
    let text = setting_line(key, value);
    let whole = line + seq!['\n'] + rest;
    lines_are_what_line_feeds_end(line, rest);
    let list = line_list(whole);
    let more = line_list(rest);
    assert(list[0] == line);
    assert(forall|i: int| 0 <= i < more.len() ==> list[i + 1] == more[i]);
    if has_line(whole, text) {
        let i = choose|i: int| 0 <= i < list.len() && trimmed(#[trigger] list[i]) == text;
        if i > 0 {
            assert(trimmed(more[i - 1]) == text);
        }
    }
    if has_line(rest, text) {
        let i = choose|i: int| 0 <= i < more.len() && trimmed(#[trigger] more[i]) == text;
        assert(trimmed(list[i + 1]) == text);
    }
    if trimmed(line) == text {
        assert(trimmed(list[0]) == text);
    }
    if line.len() > 0 {
        let one = line_list(line);
        assert(one[0] == line);
        if trimmed(line) == text {
            assert(trimmed(one[0]) == text);
        }
    }
}

/// What is said of a missing setting shows the setting and the whole section.
pub proof fn missing_settings_are_shown(section: Seq<char>, key: Seq<char>, value: Seq<char>)
    ensures
        setting_problem(section, key, value) == "missing release invariant `"@ + (key + " = "@ + value)
            + "` in:\n"@ + section,
{
}

} // verus!
