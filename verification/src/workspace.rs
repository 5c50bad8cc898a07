//! What the workspace's own files say of the build: its root, profile, toolchain and sdk.
use crate::failure::{io_error, Error, ErrorModel, IoFailure, IoModel};
use crate::manifest::{optional, Profile, ProfileValue, SettingModel};
use crate::sorting::{
    ascending, by_name, is_index, latest, lemma_index_places, lemma_name_list, name_list, names,
};
use crate::text::same_text;
use crate::toml_doc::{
    field_names, field_of, read_toml, text_field, toml_json, toml_tree, value_json, FieldShape,
    TomlField, TomlNode, TomlShape,
};
use vstd::prelude::*;

verus! {

/// What came of reading a file: its text, or the failure to read it.
pub open spec fn reading(r: Result<String, IoFailure>) -> Result<Seq<char>, IoModel> {
    match r {
        Ok(s) => Ok(s@),
        Err(e) => Err(e@),
    }
}

/// The document declares a workspace.
pub open spec fn has_workspace(doc: TomlShape) -> bool {
    field_of(doc, "workspace"@) is Some
}

/// The text is a TOML document that declares a workspace.
pub open spec fn declares_workspace(text: Seq<char>) -> bool {
    match toml_tree(text) {
        Ok(doc) => has_workspace(doc),
        Err(_) => false,
    }
}

/// The directory has a manifest that declares a workspace.
pub open spec fn is_root(manifest: Option<Seq<char>>) -> bool {
    match manifest {
        Some(text) => declares_workspace(text),
        None => false,
    }
}

/// The texts of the manifests, where there are any.
pub open spec fn manifest_texts(manifests: Seq<Option<String>>) -> Seq<Option<Seq<char>>> {
    manifests.map_values(|m: Option<String>| optional(m))
}

/// The document that a file holds.
pub open spec fn loaded(file: Result<Seq<char>, IoModel>) -> Result<TomlShape, ErrorModel> {
    match file {
        Err(e) => Err(io_error(e)),
        Ok(text) => match toml_tree(text) {
            Ok(doc) => Ok(doc),
            Err(problem) => Err(ErrorModel::Toml(problem)),
        },
    }
}

/// What is wrong with the first field that has no JSON.
pub open spec fn first_problem(fields: Seq<FieldShape>) -> Option<Seq<char>>
    decreases fields.len(),
{
    if fields.len() == 0 {
        None
    } else {
        match toml_json(fields[0].value) {
            Err(problem) => Some(problem),
            Ok(_) => first_problem(fields.skip(1)),
        }
    }
}

/// The setting `n` of a table of settings.
pub open spec fn setting_rule(fields: Seq<FieldShape>) -> spec_fn(Seq<char>) -> SettingModel {
    |n: Seq<char>|
        SettingModel {
            key: n,
            json: toml_json(fields[latest(field_names(fields), n).unwrap()].value)->Ok_0,
        }
}

/// The settings of a table, in the order of their names.
pub open spec fn settings(fields: Seq<FieldShape>) -> Seq<SettingModel> {
    name_list(field_names(fields)).map_values(setting_rule(fields))
}

/// The table of the release profile, where the document has one.
pub open spec fn release_table(doc: TomlShape) -> Option<Seq<FieldShape>> {
    match field_of(doc, "profile"@) {
        Some(profile) => match field_of(profile, "release"@) {
            Some(TomlShape::Table(fields)) => Some(fields),
            _ => None,
        },
        None => None,
    }
}

/// The release profile that a document declares: no settings, where it declares none.
pub open spec fn profile_in(doc: TomlShape) -> Result<Seq<SettingModel>, ErrorModel> {
    match release_table(doc) {
        Some(fields) => match first_problem(fields) {
            Some(problem) => Err(ErrorModel::Json(problem)),
            None => Ok(settings(fields)),
        },
        None => Ok(Seq::empty()),
    }
}

/// The version of the first package named `soroban-sdk`, where that package states one.
pub open spec fn sdk_among(packages: Seq<TomlShape>) -> Option<Seq<char>>
    decreases packages.len(),
{
    if packages.len() == 0 {
        None
    } else if text_field(packages[0], "name"@) == Some("soroban-sdk"@) {
        text_field(packages[0], "version"@)
    } else {
        sdk_among(packages.skip(1))
    }
}

/// The version of the sdk that a lock file pins.
pub open spec fn sdk_in(doc: TomlShape) -> Result<Seq<char>, ErrorModel> {
    match field_of(doc, "package"@) {
        Some(TomlShape::List(packages)) => match sdk_among(packages) {
            Some(version) => Ok(version),
            None => Err(ErrorModel::SdkVersionNotFound),
        },
        _ => Err(ErrorModel::SdkVersionNotFound),
    }
}

/// The channel that a toolchain file pins, where it pins one.
pub open spec fn channel_in(doc: TomlShape) -> Option<Seq<char>> {
    match field_of(doc, "toolchain"@) {
        Some(toolchain) => text_field(toolchain, "channel"@),
        None => None,
    }
}

/// The release profile that the workspace manifest declares.
pub open spec fn profile_of_file(file: Result<Seq<char>, IoModel>) -> Result<
    Seq<SettingModel>,
    ErrorModel,
> {
    match loaded(file) {
        Ok(doc) => profile_in(doc),
        Err(e) => Err(e),
    }
}

/// The version of the sdk that the lock file pins.
pub open spec fn sdk_of_file(file: Result<Seq<char>, IoModel>) -> Result<Seq<char>, ErrorModel> {
    match loaded(file) {
        Ok(doc) => sdk_in(doc),
        Err(e) => Err(e),
    }
}

/// The channel that the toolchain file pins: none, where there is no such file.
pub open spec fn channel_of_file(file: Option<Result<Seq<char>, IoModel>>) -> Result<
    Option<Seq<char>>,
    ErrorModel,
> {
    match file {
        None => Ok(None),
        Some(file) => match loaded(file) {
            Ok(doc) => Ok(channel_in(doc)),
            Err(e) => Err(e),
        },
    }
}

/// What came of reading a file that may not exist.
pub open spec fn optional_reading(file: Option<Result<String, IoFailure>>) -> Option<
    Result<Seq<char>, IoModel>,
> {
    match file {
        Some(r) => Some(reading(r)),
        None => None,
    }
}

/// The settings of a recorded profile stand in the order of their names, and no name twice.
pub proof fn settings_are_ascending(fields: Seq<FieldShape>)
    ensures
        ascending(settings(fields).map_values(|v: SettingModel| v.key)),
{
    lemma_name_list(field_names(fields));
    assert(settings(fields).map_values(|v: SettingModel| v.key) =~= name_list(
        field_names(fields),
    ));
}

/// Whether the document declares a workspace.
pub fn document_has_workspace(doc: &TomlNode) -> (r: bool)
    ensures
        r == has_workspace(doc.shape()),
{
    doc.get("workspace").is_some()
}

/// Which of the directories is the workspace root, walking up: the first whose `Cargo.toml`, if
/// it could be read, declares a workspace.
pub fn find_workspace_root(manifests: &[Option<String>]) -> (r: Option<usize>)
    ensures
        match r {
            Some(i) => i < manifests@.len() && is_root(manifest_texts(manifests@)[i as int])
                && forall|j: int| 0 <= j < i ==> !is_root(#[trigger] manifest_texts(manifests@)[j]),
            None => forall|j: int|
                0 <= j < manifests@.len() ==> !is_root(#[trigger] manifest_texts(manifests@)[j]),
        },
{
    for i in 0..manifests.len()
        invariant
            forall|j: int| 0 <= j < i ==> !is_root(#[trigger] manifest_texts(manifests@)[j]),
    {
        assert(manifest_texts(manifests@)[i as int] == optional(manifests@[i as int]));
        if let Some(text) = &manifests[i] {
            if let Ok(doc) = read_toml(text) {
                if document_has_workspace(&doc) {
                    return Some(i);
                }
            }
        }
    }
    None
}

/// The document that a file holds.
pub fn load_toml(file: &Result<String, IoFailure>) -> (r: Result<TomlNode, Error>)
    ensures
        match r {
            Ok(doc) => loaded(reading(*file)) == Ok::<TomlShape, ErrorModel>(doc.shape()),
            Err(e) => loaded(reading(*file)) == Err::<TomlShape, ErrorModel>(e@),
        },
{
    match file {
        Err(e) => Err(Error::Io { path: e.path.clone(), source: e.source.clone() }),
        Ok(text) => match read_toml(text) {
            Ok(doc) => Ok(doc),
            Err(problem) => Err(Error::Toml(problem)),
        },
    }
}

/// A problem of a later field is that of the fields from it on.
proof fn lemma_first_problem(fields: Seq<FieldShape>, i: int)
    requires
        0 <= i < fields.len(),
        forall|j: int| 0 <= j < i ==> toml_json((#[trigger] fields[j]).value) is Ok,
    ensures
        toml_json(fields[i].value) matches Err(problem) ==> first_problem(fields) == Some(problem),
    decreases i,
{
    if i > 0 {
        assert(toml_json(fields[0].value) is Ok);
        assert forall|j: int| 0 <= j < i - 1 implies toml_json(
            (#[trigger] fields.skip(1)[j]).value,
        ) is Ok by {
            assert(toml_json(fields[j + 1].value) is Ok);
        }
        lemma_first_problem(fields.skip(1), i - 1);
    }
}

/// Where every field has its JSON, there is no problem.
proof fn lemma_no_problem(fields: Seq<FieldShape>)
    requires
        forall|j: int| 0 <= j < fields.len() ==> toml_json((#[trigger] fields[j]).value) is Ok,
    ensures
        first_problem(fields) is None,
    decreases fields.len(),
{
    if fields.len() > 0 {
        assert(toml_json(fields[0].value) is Ok);
        assert forall|j: int| 0 <= j < fields.len() - 1 implies toml_json(
            (#[trigger] fields.skip(1)[j]).value,
        ) is Ok by {
            assert(toml_json(fields[j + 1].value) is Ok);
        }
        lemma_no_problem(fields.skip(1));
    }
}

/// The settings of a table, in the order of their names.
fn read_settings(fields: &Vec<TomlField>, Ghost(shapes): Ghost<Seq<FieldShape>>) -> (r: Result<
    Profile,
    Error,
>)
    requires
        shapes.len() == fields@.len(),
        forall|i: int|
            0 <= i < shapes.len() ==> (#[trigger] shapes[i]).key == fields@[i].key@
                && shapes[i].value == fields@[i].value.shape(),
    ensures
        match r {
            Ok(profile) => first_problem(shapes) is None && profile@ == settings(shapes),
            Err(e) => match first_problem(shapes) {
                Some(problem) => e@ == ErrorModel::Json(problem),
                None => false,
            },
        },
{
    let mut jsons: Vec<String> = Vec::new();
    for i in 0..fields.len()
        invariant
            shapes.len() == fields@.len(),
            forall|j: int|
                0 <= j < shapes.len() ==> (#[trigger] shapes[j]).key == fields@[j].key@
                    && shapes[j].value == fields@[j].value.shape(),
            jsons@.len() == i,
            forall|j: int|
                0 <= j < i ==> toml_json((#[trigger] shapes[j]).value) == Ok::<
                    Seq<char>,
                    Seq<char>,
                >(jsons@[j]@),
    {
        assert(shapes[i as int].value == fields@[i as int].value.shape());
        match value_json(&fields[i].value) {
            Ok(json) => jsons.push(json),
            Err(problem) => {
                proof {
                    lemma_first_problem(shapes, i as int);
                }
                return Err(Error::Json(problem));
            },
        }
    }
    let ghost list = name_list(field_names(shapes));
    let order = by_name::<TomlField, char>(fields);
    proof {
        lemma_no_problem(shapes);
        assert(names::<TomlField, char>(fields@) =~= field_names(shapes));
        lemma_index_places(order@, field_names(shapes));
    }
    let mut values: Vec<ProfileValue> = Vec::new();
    for k in 0..order.len()
        invariant
            shapes.len() == fields@.len(),
            list == name_list(field_names(shapes)),
            forall|j: int|
                0 <= j < shapes.len() ==> (#[trigger] shapes[j]).key == fields@[j].key@,
            jsons@.len() == shapes.len(),
            forall|j: int|
                0 <= j < shapes.len() ==> toml_json((#[trigger] shapes[j]).value) == Ok::<
                    Seq<char>,
                    Seq<char>,
                >(jsons@[j]@),
            is_index(order@, field_names(shapes)),
            forall|j: int|
                0 <= j < order@.len() ==> #[trigger] order@[j] < shapes.len() && field_names(
                    shapes,
                )[order@[j] as int] == list[j],
            values@.len() == k,
            forall|j: int|
                0 <= j < k ==> (#[trigger] values@[j])@ == setting_rule(shapes)(list[j]),
    {
        assert(order@[k as int] < shapes.len());
        let at: usize = order[k];
        assert(latest(field_names(shapes), list[k as int]) == Some(at as int));
        assert(toml_json(shapes[at as int].value) is Ok);
        values.push(ProfileValue { key: fields[at].key.clone(), json: jsons[at].clone() });
        assert(values@[k as int]@ == setting_rule(shapes)(list[k as int]));
    }
    let profile = Profile { values };
    assert(profile@ =~= settings(shapes));
    Ok(profile)
}

/// The release profile that a document declares, as JSON, so that it can be recorded and compared
/// as it stands.
pub fn profile_in_document(doc: &TomlNode) -> (r: Result<Profile, Error>)
    ensures
        match r {
            Ok(profile) => profile_in(doc.shape()) == Ok::<Seq<SettingModel>, ErrorModel>(profile@),
            Err(e) => profile_in(doc.shape()) == Err::<Seq<SettingModel>, ErrorModel>(e@),
        },
{
    if let Some(profile) = doc.get("profile") {
        if let Some(release) = profile.get("release") {
            if let TomlNode::Table(fields) = release {
                return read_settings(fields, Ghost(release.shape()->Table_0));
            }
        }
    }
    let profile = Profile { values: Vec::new() };
    assert(profile@ =~= Seq::empty());
    Ok(profile)
}

/// The version of the sdk that a lock file pins.
pub fn sdk_in_document(doc: &TomlNode) -> (r: Result<String, Error>)
    ensures
        match r {
            Ok(version) => sdk_in(doc.shape()) == Ok::<Seq<char>, ErrorModel>(version@),
            Err(e) => sdk_in(doc.shape()) == Err::<Seq<char>, ErrorModel>(e@),
        },
{
    if let Some(list) = doc.get("package") {
        if let TomlNode::List(packages) = list {
            let ghost all = list.shape()->List_0;
            assert(all.skip(0) == all);
            for i in 0..packages.len()
                invariant
                    all == list.shape()->List_0,
                    *list == TomlNode::List(*packages),
                    all.len() == packages@.len(),
                    field_of(doc.shape(), "package"@) == Some(TomlShape::List(all)),
                    sdk_among(all) == sdk_among(all.skip(i as int)),
            {
                assert(all[i as int] == packages@[i as int].shape());
                assert(all.skip(i as int)[0] == all[i as int]);
                assert(all.skip(i as int).skip(1) == all.skip(i + 1));
                if let Some(name) = packages[i].text_at("name") {
                    if same_text(&name, "soroban-sdk") {
                        return match packages[i].text_at("version") {
                            Some(version) => Ok(version),
                            None => Err(Error::SdkVersionNotFound),
                        };
                    }
                }
            }
            return Err(Error::SdkVersionNotFound);
        }
    }
    Err(Error::SdkVersionNotFound)
}

/// The channel that a toolchain file pins, where it pins one.
pub fn channel_in_document(doc: &TomlNode) -> (r: Option<String>)
    ensures
        optional(r) == channel_in(doc.shape()),
{
    match doc.get("toolchain") {
        Some(toolchain) => toolchain.text_at("channel"),
        None => None,
    }
}

/// The release profile that the workspace manifest declares.
pub fn profile_from_workspace(file: &Result<String, IoFailure>) -> (r: Result<Profile, Error>)
    ensures
        match r {
            Ok(profile) => profile_of_file(reading(*file)) == Ok::<Seq<SettingModel>, ErrorModel>(
                profile@,
            ),
            Err(e) => profile_of_file(reading(*file)) == Err::<Seq<SettingModel>, ErrorModel>(e@),
        },
{
    match load_toml(file) {
        Ok(doc) => profile_in_document(&doc),
        Err(e) => Err(e),
    }
}

/// The version of the sdk that the lock file pins.
pub fn soroban_sdk_version(file: &Result<String, IoFailure>) -> (r: Result<String, Error>)
    ensures
        match r {
            Ok(version) => sdk_of_file(reading(*file)) == Ok::<Seq<char>, ErrorModel>(version@),
            Err(e) => sdk_of_file(reading(*file)) == Err::<Seq<char>, ErrorModel>(e@),
        },
{
    match load_toml(file) {
        Ok(doc) => sdk_in_document(&doc),
        Err(e) => Err(e),
    }
}

/// The channel that the toolchain file pins: none, where there is no such file.
pub fn toolchain_channel(file: &Option<Result<String, IoFailure>>) -> (r: Result<
    Option<String>,
    Error,
>)
    ensures
        match r {
            Ok(channel) => channel_of_file(optional_reading(*file)) == Ok::<
                Option<Seq<char>>,
                ErrorModel,
            >(optional(channel)),
            Err(e) => channel_of_file(optional_reading(*file)) == Err::<
                Option<Seq<char>>,
                ErrorModel,
            >(e@),
        },
{
    match file {
        None => Ok(None),
        Some(file) => match load_toml(file) {
            Ok(doc) => Ok(channel_in_document(&doc)),
            Err(e) => Err(e),
        },
    }
}

} // verus!
