//! What the files of a workspace declare is found under its key, whatever else they hold.
use crate::failure::{ErrorModel, IoModel};
use crate::json_doc::{member_names, member_of, JsonShape};
use crate::manifest::SettingModel;
use crate::sorting::{ascending, latest, lemma_latest, lemma_name_list, name_list};
use crate::toml_doc::{
    field_names, field_of, text_field, toml_json, toml_tree, FieldShape, TomlShape,
};
use crate::workspace::{
    channel_in, channel_of_file, first_problem, has_workspace, is_root, profile_in,
    profile_of_file, sdk_among, sdk_in, sdk_of_file, setting_rule, settings, settings_are_ascending,
};
use vstd::prelude::*;

verus! {

/// The table has the key, with the value at this place, and not again behind it.
pub open spec fn holds_at(
    fields: Seq<FieldShape>,
    key: Seq<char>,
    at: int,
) -> bool {
    0 <= at < fields.len() && fields[at].key == key && forall|j: int|
        at < j < fields.len() ==> (#[trigger] fields[j]).key != key
}

/// The table does not have the key.
pub open spec fn lacks(fields: Seq<FieldShape>, key: Seq<char>) -> bool {
    forall|j: int| 0 <= j < fields.len() ==> (#[trigger] fields[j]).key != key
}

/// A value is found under its key wherever it stands in a table, and nothing is found under a key
/// that the table does not have or in what is no table.
pub proof fn values_are_found_under_their_key(
    fields: Seq<FieldShape>,
    key: Seq<char>,
    at: int,
    node: TomlShape,
)
    ensures
        holds_at(fields, key, at) ==> field_of(TomlShape::Table(fields), key) == Some(
            fields[at].value,
        ),
        lacks(fields, key) ==> field_of(TomlShape::Table(fields), key) is None,
        node !is Table ==> field_of(node, key) is None,
{
    let names = field_names(fields);
    lemma_latest(names, key);
    if holds_at(fields, key, at) {
        assert(names[at] == key);
        assert(names.contains(key));
        let i = latest(names, key).unwrap();
        assert(names[i] == fields[i].key);
        if i < at {
            assert(names[at] != key);
        }
    }
    if lacks(fields, key) && names.contains(key) {
        let i = choose|i: int| 0 <= i < names.len() && names[i] == key;
        assert(fields[i].key == key);
    }
}

/// The text under a key is the text that stands there, and nothing but a text is taken for one.
pub proof fn texts_are_found_under_their_key(
    fields: Seq<FieldShape>,
    key: Seq<char>,
    at: int,
    s: Seq<char>,
)
    requires
        holds_at(fields, key, at),
    ensures
        fields[at].value == TomlShape::Text(s) ==> text_field(TomlShape::Table(fields), key) == Some(
            s,
        ),
        fields[at].value !is Text ==> text_field(TomlShape::Table(fields), key) is None,
{
    values_are_found_under_their_key(fields, key, at, TomlShape::Boolean(true));
}

/// A directory is a workspace root exactly if its manifest is a TOML table with the key
/// `workspace`, whatever other keys that table has.
pub proof fn roots_declare_a_workspace(text: Seq<char>, fields: Seq<FieldShape>)
    requires
        toml_tree(text) == Ok::<TomlShape, Seq<char>>(TomlShape::Table(fields)),
    ensures
        is_root(Some(text)) <==> exists|i: int|
            0 <= i < fields.len() && (#[trigger] fields[i]).key == "workspace"@,
{
    documents_declare_a_workspace_by_its_key(fields, TomlShape::Boolean(true));
}

/// A document declares a workspace exactly if it is a table with the key `workspace`: neither a
/// package beside it nor anything else in the table matters, nor what stands under the key.
pub proof fn documents_declare_a_workspace_by_its_key(fields: Seq<FieldShape>, node: TomlShape)
    ensures
        has_workspace(TomlShape::Table(fields)) <==> exists|i: int|
            0 <= i < fields.len() && (#[trigger] fields[i]).key == "workspace"@,
        node !is Table ==> !has_workspace(node),
{
    let key = "workspace"@;
    lemma_latest(field_names(fields), key);
    if exists|i: int| 0 <= i < fields.len() && (#[trigger] fields[i]).key == key {
        let i = choose|i: int| 0 <= i < fields.len() && (#[trigger] fields[i]).key == key;
        assert(field_names(fields)[i] == key);
        assert(field_names(fields).contains(key));
    } else {
        values_are_found_under_their_key(fields, key, 0, TomlShape::Boolean(true));
    }
}

/// A further field does not make a root any less of one, nor anything a root unless it is the
/// declaration itself.
pub proof fn further_fields_leave_a_root(
    text: Seq<char>,
    longer: Seq<char>,
    fields: Seq<FieldShape>,
    at: int,
    extra: FieldShape,
)
    requires
        0 <= at <= fields.len(),
        extra.key != "workspace"@,
        toml_tree(text) == Ok::<TomlShape, Seq<char>>(TomlShape::Table(fields)),
        toml_tree(longer) == Ok::<TomlShape, Seq<char>>(
            TomlShape::Table(fields.insert(at, extra)),
        ),
    ensures
        is_root(Some(longer)) <==> is_root(Some(text)),
{
    let more = fields.insert(at, extra);
    roots_declare_a_workspace(text, fields);
    roots_declare_a_workspace(longer, more);
    if is_root(Some(text)) {
        let i = choose|i: int| 0 <= i < fields.len() && (#[trigger] fields[i]).key == "workspace"@;
        let j = if i < at {
            i
        } else {
            i + 1
        };
        assert(more[j] == fields[i]);
    }
    if is_root(Some(longer)) {
        let j = choose|j: int| 0 <= j < more.len() && (#[trigger] more[j]).key == "workspace"@;
        let i = if j < at {
            j
        } else {
            j - 1
        };
        assert(more[at] == extra);
        assert(fields[i] == more[j]);
    }
}

/// Without a manifest, or with one that is no TOML table, a directory is no root.
pub proof fn others_are_no_roots(text: Seq<char>)
    ensures
        !is_root(None),
        toml_tree(text) is Err ==> !is_root(Some(text)),
        toml_tree(text) matches Ok(doc) && doc !is Table ==> !is_root(Some(text)),
{
}

/// The package goes by exactly this name.
pub open spec fn package_is(package: TomlShape, name: Seq<char>) -> bool {
    text_field(package, "name"@) == Some(name)
}

/// The version of the sdk is that of the first package whose name is exactly `soroban-sdk`,
/// whatever the other packages are named. Where no package has exactly that name, or the first one
/// that has states no version, the version is not found.
pub proof fn sdk_is_the_package_of_that_name(
    doc: TomlShape,
    packages: Seq<TomlShape>,
    at: int,
    version: Seq<char>,
)
    requires
        field_of(doc, "package"@) == Some(TomlShape::List(packages)),
        0 <= at <= packages.len(),
        forall|j: int| 0 <= j < at ==> !package_is(#[trigger] packages[j], "soroban-sdk"@),
    ensures
        at < packages.len() && package_is(packages[at], "soroban-sdk"@) && text_field(
            packages[at],
            "version"@,
        ) == Some(version) ==> sdk_in(doc) == Ok::<Seq<char>, ErrorModel>(version),
        at < packages.len() && package_is(packages[at], "soroban-sdk"@) && text_field(
            packages[at],
            "version"@,
        ) is None ==> sdk_in(doc) == Err::<Seq<char>, ErrorModel>(ErrorModel::SdkVersionNotFound),
        at == packages.len() ==> sdk_in(doc) == Err::<Seq<char>, ErrorModel>(
            ErrorModel::SdkVersionNotFound,
        ),
{
    lemma_sdk_among(packages, at);
}

/// Packages of other names are passed over.
proof fn lemma_sdk_among(packages: Seq<TomlShape>, at: int)
    requires
        0 <= at <= packages.len(),
        forall|j: int| 0 <= j < at ==> !package_is(#[trigger] packages[j], "soroban-sdk"@),
    ensures
        at == packages.len() ==> sdk_among(packages) is None,
        at < packages.len() && package_is(packages[at], "soroban-sdk"@) ==> sdk_among(packages)
            == text_field(packages[at], "version"@),
    decreases at,
{
    if at > 0 {
        let rest = packages.skip(1);
        assert(!package_is(packages[0], "soroban-sdk"@));
        assert forall|j: int| 0 <= j < at - 1 implies !package_is(
            #[trigger] rest[j],
            "soroban-sdk"@,
        ) by {
            assert(rest[j] == packages[j + 1]);
        }
        lemma_sdk_among(rest, at - 1);
    }
}

/// A lock file without a list of packages pins no sdk.
pub proof fn sdk_needs_packages(doc: TomlShape)
    ensures
        (field_of(doc, "package"@) matches Some(v) ==> v !is List) ==> sdk_in(doc) == Err::<
            Seq<char>,
            ErrorModel,
        >(ErrorModel::SdkVersionNotFound),
{
}

/// The channel is the text under `channel` of the table under `toolchain`, and none where either
/// is missing.
pub proof fn channel_stands_under_toolchain(doc: TomlShape)
    ensures
        channel_in(doc) == (match field_of(doc, "toolchain"@) {
            None => None,
            Some(table) => match field_of(table, "channel"@) {
                Some(TomlShape::Text(channel)) => Some(channel),
                _ => None,
            },
        }),
        channel_of_file(None) == Ok::<Option<Seq<char>>, ErrorModel>(None),
{
}

/// A file that could not be read fails with the path and the reason, and one that is not TOML with
/// what is wrong with it. Of any other, the document is taken.
pub proof fn files_are_read_whole(path: Seq<char>, source: Seq<char>, text: Seq<char>)
    ensures
        ({
            let failed = Err::<Seq<char>, IoModel>(IoModel { path, source });
            let error = ErrorModel::Io { path, source };
            &&& sdk_of_file(failed) == Err::<Seq<char>, ErrorModel>(error)
            &&& channel_of_file(Some(failed)) == Err::<Option<Seq<char>>, ErrorModel>(error)
            &&& profile_of_file(failed) == Err::<Seq<SettingModel>, ErrorModel>(error)
        }),
        toml_tree(text) matches Err(problem) ==> {
            let file = Ok::<Seq<char>, IoModel>(text);
            let error = ErrorModel::Toml(problem);
            &&& sdk_of_file(file) == Err::<Seq<char>, ErrorModel>(error)
            &&& channel_of_file(Some(file)) == Err::<Option<Seq<char>>, ErrorModel>(error)
            &&& profile_of_file(file) == Err::<Seq<SettingModel>, ErrorModel>(error)
        },
        toml_tree(text) matches Ok(doc) ==> {
            let file = Ok::<Seq<char>, IoModel>(text);
            &&& sdk_of_file(file) == sdk_in(doc)
            &&& channel_of_file(Some(file)) == Ok::<Option<Seq<char>>, ErrorModel>(channel_in(doc))
            &&& profile_of_file(file) == profile_in(doc)
        },
{
}

/// Where no setting was refused, each has its JSON.
proof fn lemma_no_refusal(fields: Seq<FieldShape>, i: int)
    requires
        first_problem(fields) is None,
        0 <= i < fields.len(),
    ensures
        toml_json(fields[i].value) is Ok,
    decreases i,
{
    if i > 0 {
        lemma_no_refusal(fields.skip(1), i - 1);
    }
}

/// The recorded profile has every setting of `[profile.release]`, and no other, each with the JSON
/// of its value: of the last one, where a key is given twice. The keys are ascending.
pub proof fn profile_has_every_setting(
    doc: TomlShape,
    profile: TomlShape,
    fields: Seq<FieldShape>,
    at: int,
    k: int,
)
    requires
        field_of(doc, "profile"@) == Some(profile),
        field_of(profile, "release"@) == Some(TomlShape::Table(fields)),
        profile_in(doc) is Ok,
    ensures
        ({
            let list = profile_in(doc)->Ok_0;
            &&& ascending(list.map_values(|v: SettingModel| v.key))
            &&& holds_at(fields, fields[at].key, at) ==> exists|i: int|
                0 <= i < list.len() && (#[trigger] list[i]).key == fields[at].key && toml_json(
                    fields[at].value,
                ) == Ok::<Seq<char>, Seq<char>>(list[i].json)
            &&& 0 <= k < list.len() ==> exists|j: int|
                #[trigger] holds_at(fields, list[k].key, j) && toml_json(fields[j].value) == Ok::<
                    Seq<char>,
                    Seq<char>,
                >(list[k].json)
        }),
{
    let names = field_names(fields);
    let list = settings(fields);
    assert(list == profile_in(doc)->Ok_0);
    settings_are_ascending(fields);
    lemma_name_list(names);
    if holds_at(fields, fields[at].key, at) {
        let key = fields[at].key;
        assert(names[at] == key);
        assert(names.contains(key));
        assert(name_list(names).contains(key));
        let i = choose|i: int| 0 <= i < name_list(names).len() && name_list(names)[i] == key;
        assert(list[i] == setting_rule(fields)(name_list(names)[i]));
        assert(list[i].key == key);
        values_are_found_under_their_key(fields, key, at, doc);
        lemma_latest(names, key);
        assert(latest(names, key) == Some(at)) by {
            let found = latest(names, key).unwrap();
            assert(names[found] == fields[found].key);
            if found < at {
                assert(names[at] != key);
            }
        }
        lemma_no_refusal(fields, at);
        assert(toml_json(fields[at].value) == Ok::<Seq<char>, Seq<char>>(list[i].json));
    }
    if 0 <= k < list.len() {
        let key = name_list(names)[k];
        assert(list[k] == setting_rule(fields)(key));
        assert(name_list(names).contains(key));
        assert(names.contains(key));
        lemma_latest(names, key);
        let j = latest(names, key).unwrap();
        assert forall|i: int| j < i < fields.len() implies (#[trigger] fields[i]).key != key by {
            assert(names[i] != key);
        }
        assert(names[j] == key && fields[j].key == key);
        assert(holds_at(fields, list[k].key, j));
        lemma_no_refusal(fields, j);
        assert(toml_json(fields[j].value) == Ok::<Seq<char>, Seq<char>>(list[k].json));
    }
}

/// A profile is refused exactly where a setting has no JSON, with what is wrong with the first such
/// setting. Where there is no table `[profile.release]`, the profile is empty.
pub proof fn profile_is_refused_with_the_first_fault(
    doc: TomlShape,
    profile: TomlShape,
    fields: Seq<FieldShape>,
    at: int,
)
    ensures
        field_of(doc, "profile"@) is None ==> profile_in(doc) == Ok::<
            Seq<SettingModel>,
            ErrorModel,
        >(Seq::empty()),
        field_of(doc, "profile"@) == Some(profile) && (field_of(
            profile,
            "release"@,
        ) matches Some(v) ==> v !is Table) ==> profile_in(doc) == Ok::<
            Seq<SettingModel>,
            ErrorModel,
        >(Seq::empty()),
        field_of(doc, "profile"@) == Some(profile) && field_of(profile, "release"@) == Some(
            TomlShape::Table(fields),
        ) && 0 <= at <= fields.len() && (forall|j: int|
            0 <= j < at ==> toml_json((#[trigger] fields[j]).value) is Ok) ==> {
            &&& at == fields.len() ==> profile_in(doc) is Ok
            &&& at < fields.len() ==> (toml_json(fields[at].value) matches Err(problem)
                ==> profile_in(doc) == Err::<Seq<SettingModel>, ErrorModel>(
                ErrorModel::Json(problem),
            ))
        },
{
    if 0 <= at <= fields.len() && (forall|j: int|
        0 <= j < at ==> toml_json((#[trigger] fields[j]).value) is Ok) {
        lemma_first_fault(fields, at);
    }
}

/// Settings with their JSON are passed over.
proof fn lemma_first_fault(fields: Seq<FieldShape>, at: int)
    requires
        0 <= at <= fields.len(),
        forall|j: int| 0 <= j < at ==> toml_json((#[trigger] fields[j]).value) is Ok,
    ensures
        at == fields.len() ==> first_problem(fields) is None,
        at < fields.len() ==> (toml_json(fields[at].value) matches Err(problem) ==> first_problem(
            fields,
        ) == Some(problem)),
    decreases at,
{
    if at > 0 {
        let rest = fields.skip(1);
        assert(toml_json(fields[0].value) is Ok);
        assert forall|j: int| 0 <= j < at - 1 implies toml_json((#[trigger] rest[j]).value) is Ok by {
            assert(rest[j] == fields[j + 1]);
        }
        lemma_first_fault(rest, at - 1);
    }
}

/// A member of a JSON object is found under its key wherever it stands, and there is nothing under
/// a key that the object does not have or in what is no object.
pub proof fn members_are_found_under_their_key(
    members: Seq<(Seq<char>, JsonShape)>,
    key: Seq<char>,
    at: int,
    node: JsonShape,
)
    ensures
        0 <= at < members.len() && members[at].0 == key && (forall|j: int|
            at < j < members.len() ==> (#[trigger] members[j]).0 != key) ==> member_of(
            JsonShape::Object(members),
            key,
        ) == members[at].1,
        (forall|j: int| 0 <= j < members.len() ==> (#[trigger] members[j]).0 != key) ==> member_of(
            JsonShape::Object(members),
            key,
        ) is Null,
        node !is Object ==> member_of(node, key) is Null,
{
    let names = member_names(members);
    lemma_latest(names, key);
    if 0 <= at < members.len() && members[at].0 == key && (forall|j: int|
        at < j < members.len() ==> (#[trigger] members[j]).0 != key) {
        assert(names[at] == key);
        assert(names.contains(key));
        let i = latest(names, key).unwrap();
        assert(names[i] == members[i].0);
        if i < at {
            assert(names[at] != key);
        }
    }
    if names.contains(key) {
        let i = choose|i: int| 0 <= i < names.len() && names[i] == key;
        assert(members[i].0 == key);
    }
}

} // verus!
