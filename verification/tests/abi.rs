use fluxora_provenance::abi::baseline::frozen_v1;
use fluxora_provenance::abi::compatibility::{
    check_compatibility, diff, diff_errors, diff_events, diff_functions, diff_types, Change,
    ChangeKind,
};
use fluxora_provenance::abi::decode::{
    current_inventory, errors_from_spec, event_from_spec, format_type, function_from_spec,
    inventory_from_entries, spec_ident, type_from_spec,
};
use fluxora_provenance::abi::inventory::{
    auth_of, auth_table, find_auth, fn_abi, param, ErrorCase, Inventory, TypeAbi,
};
use fluxora_provenance::abi::render::{escape, render_json};
use fluxora_provenance::abi::source::pub_fn_names_from_lib;
use fluxora_provenance::abi::spec_entry::{SpecCase, SpecEntry, SpecEventParam, SpecParam, SpecType};
use soroban_sdk::xdr::{
    Limits, ScSpecEntry, ScSpecEventDataFormat, ScSpecEventParamLocationV0, ScSpecEventParamV0,
    ScSpecEventV0, ScSpecFunctionInputV0, ScSpecFunctionV0, ScSpecTypeBytesN, ScSpecTypeDef,
    ScSpecTypeMap, ScSpecTypeOption, ScSpecTypeResult, ScSpecTypeTuple, ScSpecTypeUdt,
    ScSpecTypeVec, ScSpecUdtEnumCaseV0, ScSpecUdtEnumV0, ScSpecUdtErrorEnumCaseV0,
    ScSpecUdtErrorEnumV0, ScSpecUdtStructFieldV0, ScSpecUdtStructV0, ScSpecUdtUnionV0, ScSymbol,
    WriteXdr,
};

// A contract specification, in the XDR that a contract embeds.

/// The type that a text such as `Result<Option<u64>, Error>` names.
fn type_def(text: &str) -> ScSpecTypeDef {
    let args = |inner: &str| -> Vec<ScSpecTypeDef> {
        let mut parts = Vec::new();
        let mut depth = 0;
        let mut part = String::new();
        for c in inner.chars() {
            match c {
                '<' | '(' => depth += 1,
                '>' | ')' => depth -= 1,
                _ => {}
            }
            if c == ',' && depth == 0 {
                parts.push(type_def(part.trim()));
                part.clear();
            } else {
                part.push(c);
            }
        }
        if !part.trim().is_empty() {
            parts.push(type_def(part.trim()));
        }
        parts
    };
    let inside = |name: &str| -> Option<Vec<ScSpecTypeDef>> {
        let rest = text.strip_prefix(name)?.strip_prefix('<')?.strip_suffix('>')?;
        Some(args(rest))
    };
    if let Some(p) = inside("Option") {
        return ScSpecTypeDef::Option(Box::new(ScSpecTypeOption {
            value_type: Box::new(p[0].clone()),
        }));
    }
    if let Some(p) = inside("Result") {
        return ScSpecTypeDef::Result(Box::new(ScSpecTypeResult {
            ok_type: Box::new(p[0].clone()),
            error_type: Box::new(p[1].clone()),
        }));
    }
    if let Some(p) = inside("Vec") {
        return ScSpecTypeDef::Vec(Box::new(ScSpecTypeVec {
            element_type: Box::new(p[0].clone()),
        }));
    }
    if let Some(p) = inside("Map") {
        return ScSpecTypeDef::Map(Box::new(ScSpecTypeMap {
            key_type: Box::new(p[0].clone()),
            value_type: Box::new(p[1].clone()),
        }));
    }
    if let Some(n) = text.strip_prefix("BytesN<").and_then(|t| t.strip_suffix('>')) {
        return ScSpecTypeDef::BytesN(ScSpecTypeBytesN {
            n: n.parse().unwrap(),
        });
    }
    match text {
        "Val" => ScSpecTypeDef::Val,
        "bool" => ScSpecTypeDef::Bool,
        "()" => ScSpecTypeDef::Void,
        "Error" => ScSpecTypeDef::Error,
        "u32" => ScSpecTypeDef::U32,
        "i32" => ScSpecTypeDef::I32,
        "u64" => ScSpecTypeDef::U64,
        "i64" => ScSpecTypeDef::I64,
        "Timepoint" => ScSpecTypeDef::Timepoint,
        "Duration" => ScSpecTypeDef::Duration,
        "u128" => ScSpecTypeDef::U128,
        "i128" => ScSpecTypeDef::I128,
        "U256" => ScSpecTypeDef::U256,
        "I256" => ScSpecTypeDef::I256,
        "Bytes" => ScSpecTypeDef::Bytes,
        "String" => ScSpecTypeDef::String,
        "Symbol" => ScSpecTypeDef::Symbol,
        "Address" => ScSpecTypeDef::Address,
        "MuxedAddress" => ScSpecTypeDef::MuxedAddress,
        tuple if tuple.starts_with('(') => ScSpecTypeDef::Tuple(Box::new(ScSpecTypeTuple {
            value_types: args(&tuple[1..tuple.len() - 1]).try_into().unwrap(),
        })),
        name => ScSpecTypeDef::Udt(ScSpecTypeUdt {
            name: name.try_into().unwrap(),
        }),
    }
}

fn xdr(entry: ScSpecEntry) -> Vec<u8> {
    entry.to_xdr(Limits::none()).unwrap()
}

fn function_xdr(name: &str, inputs: &[(&str, &str)], output: &str) -> Vec<u8> {
    let list: Vec<ScSpecFunctionInputV0> = inputs
        .iter()
        .map(|(n, t)| ScSpecFunctionInputV0 {
            doc: "a documented input".try_into().unwrap(),
            name: (*n).try_into().unwrap(),
            type_: type_def(t),
        })
        .collect();
    let outputs: Vec<ScSpecTypeDef> = if output.is_empty() {
        Vec::new()
    } else {
        vec![type_def(output)]
    };
    xdr(ScSpecEntry::FunctionV0(ScSpecFunctionV0 {
        doc: "a documented method".try_into().unwrap(),
        name: ScSymbol(name.try_into().unwrap()),
        inputs: list.try_into().unwrap(),
        outputs: outputs.try_into().unwrap(),
    }))
}

fn struct_xdr(name: &str, fields: &[(&str, &str)]) -> Vec<u8> {
    let list: Vec<ScSpecUdtStructFieldV0> = fields
        .iter()
        .map(|(n, t)| ScSpecUdtStructFieldV0 {
            doc: Default::default(),
            name: (*n).try_into().unwrap(),
            type_: type_def(t),
        })
        .collect();
    xdr(ScSpecEntry::UdtStructV0(ScSpecUdtStructV0 {
        doc: Default::default(),
        lib: Default::default(),
        name: name.try_into().unwrap(),
        fields: list.try_into().unwrap(),
    }))
}

fn enum_xdr(name: &str, cases: &[(&str, u32)]) -> Vec<u8> {
    let list: Vec<ScSpecUdtEnumCaseV0> = cases
        .iter()
        .map(|(n, v)| ScSpecUdtEnumCaseV0 {
            doc: Default::default(),
            name: (*n).try_into().unwrap(),
            value: *v,
        })
        .collect();
    xdr(ScSpecEntry::UdtEnumV0(ScSpecUdtEnumV0 {
        doc: Default::default(),
        lib: Default::default(),
        name: name.try_into().unwrap(),
        cases: list.try_into().unwrap(),
    }))
}

fn error_xdr(cases: &[(String, u32)]) -> Vec<u8> {
    let list: Vec<ScSpecUdtErrorEnumCaseV0> = cases
        .iter()
        .map(|(n, v)| ScSpecUdtErrorEnumCaseV0 {
            doc: Default::default(),
            name: n.as_str().try_into().unwrap(),
            value: *v,
        })
        .collect();
    xdr(ScSpecEntry::UdtErrorEnumV0(ScSpecUdtErrorEnumV0 {
        doc: Default::default(),
        lib: Default::default(),
        name: "Error".try_into().unwrap(),
        cases: list.try_into().unwrap(),
    }))
}

fn event_xdr(name: &str, topics: &[(&str, &str)], data: &[(&str, &str)]) -> Vec<u8> {
    let part = |list: &[(&str, &str)], location: ScSpecEventParamLocationV0| {
        list.iter()
            .map(|(n, t)| ScSpecEventParamV0 {
                doc: Default::default(),
                name: (*n).try_into().unwrap(),
                type_: type_def(t),
                location,
            })
            .collect::<Vec<ScSpecEventParamV0>>()
    };
    let mut params = part(topics, ScSpecEventParamLocationV0::TopicList);
    params.extend(part(data, ScSpecEventParamLocationV0::Data));
    xdr(ScSpecEntry::EventV0(ScSpecEventV0 {
        doc: Default::default(),
        lib: Default::default(),
        name: ScSymbol(name.try_into().unwrap()),
        prefix_topics: Default::default(),
        params: params.try_into().unwrap(),
        data_format: ScSpecEventDataFormat::Map,
    }))
}

/// The methods that version one does not have.
const DELEGATION: [(&str, &[(&str, &str)], &str); 8] = [
    (
        "grant_delegate",
        &[("grantor", "Address"), ("stream_id", "u64"), ("delegate", "Address")],
        "Result<(), Error>",
    ),
    (
        "revoke_delegate",
        &[("grantor", "Address"), ("stream_id", "u64"), ("delegate", "Address")],
        "Result<(), Error>",
    ),
    (
        "delegate_withdraw",
        &[("delegate", "Address"), ("stream_id", "u64"), ("amount", "Option<i128>")],
        "Result<i128, Error>",
    ),
    (
        "delegate_cancel",
        &[("delegate", "Address"), ("stream_id", "u64")],
        "Result<(), Error>",
    ),
    (
        "delegate_pause",
        &[("delegate", "Address"), ("stream_id", "u64")],
        "Result<(), Error>",
    ),
    (
        "delegate_resume",
        &[("delegate", "Address"), ("stream_id", "u64")],
        "Result<(), Error>",
    ),
    (
        "delegate_top_up",
        &[("delegate", "Address"), ("stream_id", "u64"), ("amount", "i128")],
        "Result<(), Error>",
    ),
    (
        "delegate_transfer_recipient",
        &[("delegate", "Address"), ("stream_id", "u64"), ("new_recipient", "Address")],
        "Result<(), Error>",
    ),
];

fn pairs(list: &[fluxora_provenance::abi::inventory::ParamAbi]) -> Vec<(&str, &str)> {
    list.iter().map(|p| (p.name.as_str(), p.ty.as_str())).collect()
}

/// The embedded specification of the contract: version one, delegation, and errors after those
/// of version one.
fn current() -> Inventory {
    let v1 = frozen_v1();
    let mut methods: Vec<Vec<u8>> = v1
        .functions
        .iter()
        .rev()
        .map(|f| function_xdr(&f.name, &pairs(&f.inputs), &f.outputs))
        .collect();
    for (name, inputs, output) in DELEGATION {
        methods.push(function_xdr(name, inputs, output));
    }
    let types: Vec<Vec<u8>> = vec![
        enum_xdr(
            "StreamStatus",
            &[("Active", 0), ("Paused", 1), ("Cancelled", 2), ("Depleted", 3)],
        ),
        struct_xdr("Stream", &pairs(&v1.types[0].fields)),
    ];
    let mut errors: Vec<(String, u32)> = v1
        .errors
        .iter()
        .map(|e| (e.name.clone(), e.discriminant))
        .collect();
    errors.push(("TokenTransferFailed".to_string(), 24));
    errors.push(("TokenMissing".to_string(), 25));
    let events: Vec<Vec<u8>> = v1
        .events
        .iter()
        .rev()
        .map(|e| event_xdr(&e.name, &pairs(&e.topics), &pairs(&e.data)))
        .collect();
    current_inventory(1, &methods, &types, &error_xdr(&errors), &events).unwrap()
}

fn details(changes: &[Change]) -> Vec<&str> {
    changes.iter().map(|c| c.detail.as_str()).collect()
}

#[test]
fn current_spec_is_compatible_with_frozen_v1() {
    check_compatibility(&frozen_v1(), &current()).unwrap();
}

#[test]
fn every_lib_rs_pub_fn_is_in_the_inventory() {
    let mut source = String::from("impl FluxoraStream {\n    fn private(e: Env) {}\n");
    for (name, _) in auth_table().iter().rev() {
        source.push_str(&format!("    /// A method.\r\n\tpub fn {name} (env: Env) -> u64 {{ }}\n"));
    }
    source.push_str("    pub const X: u32 = 1;\n}\n");
    let from_src = pub_fn_names_from_lib(&source);
    let from_spec: Vec<String> = current().functions.iter().map(|f| f.name.clone()).collect();
    let mut src_sorted = from_src.clone();
    src_sorted.sort();
    assert_eq!(
        src_sorted, from_spec,
        "lib.rs pub fn set drifted from the generated spec inventory"
    );
}

#[test]
fn auth_table_covers_every_public_method() {
    let inv = current();
    let mut table: Vec<&str> = auth_table().iter().map(|(n, _)| *n).collect();
    table.sort();
    let names: Vec<&str> = inv.functions.iter().map(|f| f.name.as_str()).collect();
    assert_eq!(table, names);
    for f in &inv.functions {
        assert!(
            matches!(
                f.auth,
                "sender" | "recipient" | "grantor" | "delegate" | "none"
            ),
            "method {} has unknown auth {}",
            f.name,
            f.auth
        );
    }
}

#[test]
fn frozen_v1_error_discriminants_are_an_unchanged_prefix() {
    let current = current();
    let frozen = frozen_v1();
    assert!(current.errors.len() >= frozen.errors.len());
    assert_eq!(current.errors[..frozen.errors.len()], frozen.errors[..]);
}

#[test]
fn removing_a_method_without_a_version_bump_is_rejected() {
    let old = frozen_v1();
    let mut new = old.clone();
    new.functions.retain(|f| f.name != "withdraw");
    let err = check_compatibility(&old, &new).unwrap_err();
    assert!(err.contains("removed method `withdraw`"), "{err}");
    assert!(err.contains("ABI_VERSION"), "{err}");
}

#[test]
fn renaming_a_method_without_a_version_bump_is_rejected() {
    let old = frozen_v1();
    let mut new = old.clone();
    let f = new
        .functions
        .iter_mut()
        .find(|f| f.name == "withdraw")
        .unwrap();
    f.name = "claim".into();
    let err = check_compatibility(&old, &new).unwrap_err();
    assert!(
        err.contains("renamed method `withdraw` -> `claim`")
            || err.contains("removed method `withdraw`"),
        "{err}"
    );
}

#[test]
fn type_changing_a_parameter_without_a_version_bump_is_rejected() {
    let old = frozen_v1();
    let mut new = old.clone();
    let f = new
        .functions
        .iter_mut()
        .find(|f| f.name == "withdraw")
        .unwrap();
    f.inputs[1].ty = "i128".into();
    let err = check_compatibility(&old, &new).unwrap_err();
    assert!(
        err.contains("type-changed method `withdraw` inputs"),
        "{err}"
    );
}

#[test]
fn type_changing_a_return_without_a_version_bump_is_rejected() {
    let old = frozen_v1();
    let mut new = old.clone();
    let f = new
        .functions
        .iter_mut()
        .find(|f| f.name == "stream_count")
        .unwrap();
    f.outputs = "u32".into();
    let err = check_compatibility(&old, &new).unwrap_err();
    assert!(
        err.contains("type-changed method `stream_count` return type"),
        "{err}"
    );
}

#[test]
fn adding_a_method_is_additive_and_needs_no_version_bump() {
    let old = frozen_v1();
    let mut new = old.clone();
    new.functions.push(fn_abi(
        "rate_of",
        "none",
        vec![param("stream_id", "u64")],
        "Result<i128, Error>",
    ));
    new.functions.sort_by(|a, b| a.name.cmp(&b.name));
    check_compatibility(&old, &new).unwrap();
}

#[test]
fn breaking_change_is_accepted_once_the_version_bumps() {
    let old = frozen_v1();
    let mut new = old.clone();
    new.functions.retain(|f| f.name != "withdraw");
    new.abi_version = old.abi_version + 1;
    check_compatibility(&old, &new).unwrap();
}

#[test]
fn version_downgrade_is_rejected() {
    let old = frozen_v1();
    let mut new = old.clone();
    new.abi_version = 0;
    let err = check_compatibility(&old, &new).unwrap_err();
    assert!(err.contains("downgrade"), "{err}");
}

#[test]
fn renaming_a_stream_field_without_a_version_bump_is_rejected() {
    let old = frozen_v1();
    let mut new = old.clone();
    new.types[0].fields[0].name = "can_cancel".into();
    let err = check_compatibility(&old, &new).unwrap_err();
    assert!(err.contains("type-changed UDT `Stream`"), "{err}");
}

#[test]
fn appending_an_event_payload_field_is_additive() {
    let old = frozen_v1();
    let mut new = old.clone();
    new.events
        .iter_mut()
        .find(|e| e.name == "Withdrawn")
        .unwrap()
        .data
        .push(param("token", "Address"));
    check_compatibility(&old, &new).unwrap();
}

#[test]
fn appending_an_error_discriminant_is_additive() {
    let old = frozen_v1();
    let mut new = old.clone();
    new.errors.push(ErrorCase {
        name: "NewFailure".into(),
        discriminant: 24,
    });
    check_compatibility(&old, &new).unwrap();
}

#[test]
fn renumbering_an_error_without_a_version_bump_is_rejected() {
    let old = frozen_v1();
    let mut new = old.clone();
    new.errors[0].discriminant = 99;
    let err = check_compatibility(&old, &new).unwrap_err();
    assert!(err.contains("renumbered error `StreamNotFound`"), "{err}");
}

#[test]
fn permissionless_methods_are_exactly_the_none_auth_set() {
    let table = auth_table();
    let none: Vec<&str> = table
        .iter()
        .filter(|(_, a)| *a == "none")
        .map(|(n, _)| *n)
        .collect();
    assert_eq!(
        none,
        [
            "get_stream",
            "withdrawable_of",
            "vested_of",
            "refundable_of",
            "stream_count",
            "stream_exists",
            "extend_stream_ttl",
            "batch_extend_ttl",
        ]
    );
}

#[test]
fn the_whole_complaint_is_given() {
    let old = frozen_v1();
    let mut new = old.clone();
    new.functions.retain(|f| f.name != "withdraw");
    new.errors[0].discriminant = 99;
    new.errors.remove(1);
    assert_eq!(
        check_compatibility(&old, &new).unwrap_err(),
        "breaking ABI change without ABI_VERSION bump (still 1): removed method `withdraw`; \
         removed error `InvalidTimeRange`; renumbered error `StreamNotFound`: 1 -> 99"
    );
    new.abi_version = 0;
    assert_eq!(
        check_compatibility(&old, &new).unwrap_err(),
        "ABI_VERSION downgrade is not allowed (1 -> 0)"
    );
}

#[test]
fn every_kind_of_change_has_its_detail() {
    let old = frozen_v1();
    let mut new = old.clone();
    new.functions[0].auth = "sender";
    new.functions[1].name = "aaa".into();
    new.types.remove(0);
    new.events[0].topics.swap(0, 1);
    new.events[1].data[0].ty = "u32".into();
    new.events[3].data.push(param("extra", "u64"));
    new.events.remove(7);
    new.errors.push(ErrorCase {
        name: "Another".into(),
        discriminant: 24,
    });
    let changes = diff(&old, &new);
    assert_eq!(
        details(&changes),
        [
            "authorization changed on `batch_extend_ttl`",
            "removed method `batch_withdraw`",
            "added method `aaa`",
            "renamed method `batch_withdraw` -> `aaa`",
            "added error `Another`",
            "removed type `Stream`",
            "reordered or changed topics on event `Cancelled`",
            "changed event payload `Paused`",
            "appended event payload fields on `Resumed`",
            "removed event `Withdrawn`",
        ]
    );
    let additive: Vec<&str> = changes
        .iter()
        .filter(|c| c.kind == ChangeKind::Additive)
        .map(|c| c.detail.as_str())
        .collect();
    assert_eq!(
        additive,
        [
            "added method `aaa`",
            "added error `Another`",
            "appended event payload fields on `Resumed`",
        ]
    );
}

#[test]
fn each_part_of_the_diff_appends_to_what_is_there() {
    let old = frozen_v1();
    let mut new = old.clone();
    new.functions.remove(0);
    new.errors.remove(0);
    new.types.remove(0);
    new.events.remove(0);
    let mut changes = vec![Change {
        kind: ChangeKind::Additive,
        detail: "earlier".into(),
    }];
    diff_functions(&old, &new, &mut changes);
    diff_errors(&old, &new, &mut changes);
    diff_types(&old, &new, &mut changes);
    diff_events(&old, &new, &mut changes);
    assert_eq!(
        details(&changes),
        [
            "earlier",
            "removed method `batch_extend_ttl`",
            "removed error `StreamNotFound`",
            "removed type `Stream`",
            "removed event `Cancelled`",
        ]
    );
}

#[test]
fn an_inventory_without_errors_is_not_held_against_errors() {
    let mut old = frozen_v1();
    old.errors.clear();
    assert!(diff(&old, &frozen_v1()).is_empty());
    assert!(diff(&frozen_v1(), &frozen_v1()).is_empty());
}

#[test]
fn of_two_items_of_one_name_the_later_counts() {
    let mut old = frozen_v1();
    old.errors.push(ErrorCase {
        name: "StreamNotFound".into(),
        discriminant: 50,
    });
    let mut new = frozen_v1();
    new.errors[0].discriminant = 50;
    assert!(diff(&old, &new).is_empty());
}

#[test]
fn accepted_steps_add_up() {
    let a = frozen_v1();
    let mut b = a.clone();
    b.errors.push(ErrorCase {
        name: "NewFailure".into(),
        discriminant: 24,
    });
    let mut c = b.clone();
    c.events[0].data.push(param("token", "Address"));
    check_compatibility(&a, &b).unwrap();
    check_compatibility(&b, &c).unwrap();
    check_compatibility(&a, &c).unwrap();
}

#[test]
fn frozen_methods_are_ascending_and_authorized_by_the_table() {
    let v1 = frozen_v1();
    assert_eq!(v1.abi_version, 1);
    assert_eq!(v1.functions.len(), 16);
    assert_eq!(v1.functions[3].name, "create_stream");
    assert_eq!(v1.functions[3].inputs.len(), 10);
    assert!(v1.functions.windows(2).all(|w| w[0].name < w[1].name));
    for f in &v1.functions {
        assert_eq!(f.auth, auth_of(&f.name));
    }
    assert_eq!(v1.types[0].fields.len(), 14);
    assert_eq!(v1.types[1].cases[3].name, "Depleted");
    assert_eq!(v1.errors.len(), 23);
    for (i, e) in v1.errors.iter().enumerate() {
        assert_eq!(e.discriminant as usize, i + 1);
    }
    assert_eq!(v1.events.len(), 8);
    assert_eq!(find_auth("pause"), Some("sender"));
    assert_eq!(find_auth("no_such_method"), None);
}

#[test]
fn the_current_inventory_is_read_from_xdr() {
    let inv = current();
    assert_eq!(inv.abi_version, 1);
    assert_eq!(inv.functions.len(), 24);
    assert!(inv.functions.windows(2).all(|w| w[0].name < w[1].name));
    let v1 = frozen_v1();
    for f in &v1.functions {
        assert!(inv.functions.contains(f), "{}", f.name);
    }
    assert_eq!(inv.types, v1.types);
    assert_eq!(inv.events, v1.events);
    assert_eq!(inv.errors.len(), 25);
    assert_eq!(inv.errors[23].name, "TokenTransferFailed");
    assert_eq!(
        details(&diff(&v1, &inv))[..2],
        [
            "added method `delegate_cancel`",
            "added method `delegate_pause`",
        ]
    );
}

#[test]
fn a_specification_that_cannot_be_read_gives_nothing() {
    let pause = function_xdr("pause", &[("stream_id", "u64")], "");
    let errors = error_xdr(&[]);
    let inv = current_inventory(7, &[pause.clone()], &[], &errors, &[]).unwrap();
    assert_eq!(inv.abi_version, 7);
    assert_eq!(inv.functions[0].outputs, "()");
    assert_eq!(inv.functions[0].auth, "sender");
    // Not XDR, and XDR with bytes behind it.
    assert_eq!(current_inventory(7, &[vec![1, 2, 3]], &[], &errors, &[]), None);
    let mut longer = pause.clone();
    longer.extend([0, 0, 0, 0]);
    assert_eq!(current_inventory(7, &[longer], &[], &errors, &[]), None);
    // A method without an entry in the table of authorizations.
    let unknown = function_xdr("mystery", &[], "");
    assert_eq!(current_inventory(7, &[unknown], &[], &errors, &[]), None);
    // Entries in each other's place.
    assert_eq!(current_inventory(7, &[errors.clone()], &[], &errors, &[]), None);
    assert_eq!(current_inventory(7, &[], &[pause.clone()], &errors, &[]), None);
    assert_eq!(current_inventory(7, &[], &[], &pause, &[]), None);
    assert_eq!(current_inventory(7, &[], &[], &errors, &[pause]), None);
    let union = xdr(ScSpecEntry::UdtUnionV0(ScSpecUdtUnionV0::default()));
    assert_eq!(current_inventory(7, &[], &[union], &errors, &[]), None);
}

#[test]
fn types_are_written_as_in_rust() {
    let all = [
        "Val", "bool", "()", "Error", "u32", "i32", "u64", "i64", "Timepoint", "Duration", "u128",
        "i128", "U256", "I256", "Bytes", "String", "Symbol", "Address", "MuxedAddress",
        "Option<u32>", "Result<u64, Error>", "Vec<Address>", "Map<Symbol, Vec<u8name>>",
        "(u32, Option<i128>, bool)", "BytesN<32>", "Stream",
    ];
    let fields: Vec<(String, &str)> = all
        .iter()
        .enumerate()
        .map(|(i, t)| (format!("f{i}"), *t))
        .collect();
    let fields: Vec<(&str, &str)> = fields.iter().map(|(n, t)| (n.as_str(), *t)).collect();
    let inv = current_inventory(
        1,
        &[],
        &[struct_xdr("All", &fields)],
        &error_xdr(&[]),
        &[],
    )
    .unwrap();
    let written: Vec<&str> = inv.types[0].fields.iter().map(|f| f.ty.as_str()).collect();
    assert_eq!(written, all);
}

#[test]
fn entries_are_read_without_xdr_too() {
    let u64_type = || SpecType::Of(6, vec![]);
    let entry = SpecEntry::Function {
        name: b"top_up".to_vec(),
        inputs: vec![SpecParam {
            name: b"amount".to_vec(),
            ty: SpecType::Of(1000, vec![SpecType::Of(11, vec![])]),
        }],
        outputs: vec![SpecType::Of(1001, vec![u64_type(), SpecType::Udt(b"Error".to_vec())])],
    };
    let f = function_from_spec(&entry).unwrap();
    assert_eq!(f.name, "top_up");
    assert_eq!(f.auth, "sender");
    assert_eq!(f.inputs, vec![param("amount", "Option<i128>")]);
    assert_eq!(f.outputs, "Result<u64, Error>");

    // Names that are not UTF-8, and types that are applied to the wrong number of types.
    assert_eq!(spec_ident(&vec![0xff]), None);
    assert_eq!(spec_ident(&b"ok".to_vec()), Some("ok".to_string()));
    assert_eq!(format_type(&SpecType::Udt(vec![0xff])), None);
    assert_eq!(format_type(&SpecType::Of(1000, vec![])), None);
    assert_eq!(format_type(&SpecType::Of(6, vec![u64_type()])), None);
    assert_eq!(format_type(&SpecType::Of(15, vec![])), None);
    assert_eq!(format_type(&SpecType::Of(1005, vec![])), Some("()".to_string()));

    let status = SpecEntry::Enum {
        name: b"S".to_vec(),
        cases: vec![SpecCase {
            name: b"On".to_vec(),
            value: 3,
        }],
    };
    assert_eq!(
        type_from_spec(&status),
        Some(TypeAbi {
            name: "S".into(),
            kind: "enum".into(),
            fields: vec![],
            cases: vec![ErrorCase {
                name: "On".into(),
                discriminant: 3
            }],
        })
    );
    assert_eq!(type_from_spec(&entry), None);
    assert_eq!(function_from_spec(&status), None);
    assert_eq!(errors_from_spec(&status), None);
    assert_eq!(event_from_spec(&status), None);

    let event = SpecEntry::Event {
        name: b"E".to_vec(),
        params: vec![
            SpecEventParam {
                name: b"a".to_vec(),
                ty: u64_type(),
                is_topic: false,
            },
            SpecEventParam {
                name: b"b".to_vec(),
                ty: u64_type(),
                is_topic: true,
            },
        ],
    };
    let e = event_from_spec(&event).unwrap();
    assert_eq!(e.topics, vec![param("b", "u64")]);
    assert_eq!(e.data, vec![param("a", "u64")]);

    let errors = SpecEntry::ErrorEnum { cases: vec![] };
    let inv = inventory_from_entries(2, &[entry], &[status], &errors, &[event]).unwrap();
    assert_eq!(inv.abi_version, 2);
    assert_eq!(inv.functions.len(), 1);
}

#[test]
fn the_inventory_is_rendered_as_json() {
    assert_eq!(escape("a\"b\\c"), "a\\\"b\\\\c");
    let empty = Inventory {
        abi_version: 1,
        functions: vec![],
        types: vec![],
        errors: vec![],
        events: vec![],
    };
    assert_eq!(
        render_json(&empty),
        "{\n  \"abi_version\": 1,\n  \"functions\": [\n  ],\n  \"types\": [\n  ],\n  \"errors\": [\n  ],\n  \"events\": [\n  ]\n}\n"
    );
    let mut small = empty.clone();
    small.functions = vec![
        fn_abi("a", "none", vec![param("x", "u64"), param("y", "bool")], "()"),
        fn_abi("b", "sender", vec![], "u32"),
    ];
    small.errors = vec![
        ErrorCase {
            name: "E\"1".into(),
            discriminant: 1,
        },
        ErrorCase {
            name: "E2".into(),
            discriminant: 4294967295,
        },
    ];
    small.types = frozen_v1().types[1..].to_vec();
    small.events = frozen_v1().events[2..3].to_vec();
    assert_eq!(
        render_json(&small),
        "{\n  \"abi_version\": 1,\n  \"functions\": [\n    {\n      \"name\": \"a\",\n      \"auth\": \"none\",\n      \"inputs\": [\n        {\"name\": \"x\", \"type\": \"u64\"},\n        {\"name\": \"y\", \"type\": \"bool\"}\n      ],\n      \"outputs\": \"()\"\n    },\n    {\n      \"name\": \"b\",\n      \"auth\": \"sender\",\n      \"inputs\": [\n      ],\n      \"outputs\": \"u32\"\n    }\n  ],\n  \"types\": [\n    {\n      \"name\": \"StreamStatus\",\n      \"kind\": \"enum\",\n      \"fields\": [\n      ],\n      \"cases\": [\n        {\"name\": \"Active\", \"discriminant\": 0},\n        {\"name\": \"Paused\", \"discriminant\": 1},\n        {\"name\": \"Cancelled\", \"discriminant\": 2},\n        {\"name\": \"Depleted\", \"discriminant\": 3}\n      ]\n    }\n  ],\n  \"errors\": [\n    {\"name\": \"E\\\"1\", \"discriminant\": 1},\n    {\"name\": \"E2\", \"discriminant\": 4294967295}\n  ],\n  \"events\": [\n    {\n      \"name\": \"RecipientTransferred\",\n      \"topics\": [\n        {\"name\": \"stream_id\", \"type\": \"u64\"},\n        {\"name\": \"old_recipient\", \"type\": \"Address\"},\n        {\"name\": \"new_recipient\", \"type\": \"Address\"}\n      ],\n      \"data\": [\n      ]\n    }\n  ]\n}\n"
    );
}

#[test]
fn documentation_is_no_part_of_the_inventory() {
    let pause = |doc: &str| {
        xdr(ScSpecEntry::FunctionV0(ScSpecFunctionV0 {
            doc: doc.try_into().unwrap(),
            name: ScSymbol("pause".try_into().unwrap()),
            inputs: Default::default(),
            outputs: Default::default(),
        }))
    };
    let errors = error_xdr(&[]);
    assert_ne!(pause("one text"), pause("another"));
    assert_eq!(
        current_inventory(1, &[pause("one text")], &[], &errors, &[]),
        current_inventory(1, &[pause("another")], &[], &errors, &[])
    );
}

#[test]
fn inventories_that_differ_render_differently() {
    let v1 = frozen_v1();
    let text = render_json(&v1);
    assert_eq!(text, render_json(&frozen_v1()));
    let mut changed = frozen_v1();
    changed.functions[0].inputs[0].name.push('"');
    assert_ne!(text, render_json(&changed));
    changed = frozen_v1();
    changed.events[0].data.pop();
    assert_ne!(text, render_json(&changed));
    changed = frozen_v1();
    changed.abi_version = 11;
    assert_ne!(text, render_json(&changed));
    // A name that spells out the end of its own line stays one name.
    let mut one = frozen_v1();
    one.errors = vec![ErrorCase {
        name: "A\", \"discriminant\": 1},\n    {\"name\": \"B".into(),
        discriminant: 2,
    }];
    let mut two = frozen_v1();
    two.errors = vec![
        ErrorCase { name: "A".into(), discriminant: 1 },
        ErrorCase { name: "B".into(), discriminant: 2 },
    ];
    assert_ne!(render_json(&one), render_json(&two));
}

#[test]
fn the_report_does_not_depend_on_order_or_version() {
    let old = frozen_v1();
    let new = current();
    let mut other_old = frozen_v1();
    other_old.abi_version = 9;
    other_old.functions.reverse();
    other_old.errors.rotate_left(5);
    other_old.types.reverse();
    other_old.events.reverse();
    let mut other_new = current();
    other_new.abi_version = 3;
    other_new.functions.rotate_left(7);
    other_new.errors.reverse();
    other_new.events.rotate_left(1);
    assert!(!diff(&old, &new).is_empty());
    assert_eq!(diff(&other_old, &other_new), diff(&old, &new));
    assert_eq!(diff(&other_new, &other_old), diff(&new, &old));
}

#[test]
fn the_methods_are_those_of_the_table() {
    let mut names: Vec<&str> = auth_table().iter().map(|e| e.0).collect();
    names.sort();
    let inv = current();
    let found: Vec<&str> = inv.functions.iter().map(|f| f.name.as_str()).collect();
    assert_eq!(found, names);
}

#[test]
fn the_rendered_inventory_reads_back_as_json() {
    let mut inv = current();
    inv.errors[0].name = "quoted \"\\\" / é".into();
    let value: serde_json::Value = serde_json::from_str(&render_json(&inv)).unwrap();
    let keys: Vec<&String> = value.as_object().unwrap().keys().collect();
    assert_eq!(keys, ["abi_version", "errors", "events", "functions", "types"]);
    assert_eq!(value["abi_version"], 1);
    let params = |list: &serde_json::Value| -> Vec<(String, String)> {
        let text = |p: &serde_json::Value, key: &str| p[key].as_str().unwrap().to_string();
        list.as_array().unwrap().iter().map(|p| (text(p, "name"), text(p, "type"))).collect()
    };
    let owned = |list: &[fluxora_provenance::abi::inventory::ParamAbi]| -> Vec<(String, String)> {
        list.iter().map(|p| (p.name.clone(), p.ty.clone())).collect()
    };
    assert_eq!(value["functions"].as_array().unwrap().len(), inv.functions.len());
    for (v, f) in value["functions"].as_array().unwrap().iter().zip(&inv.functions) {
        assert_eq!(v["name"], f.name.as_str());
        assert_eq!(v["auth"], f.auth);
        assert_eq!(params(&v["inputs"]), owned(&f.inputs));
        assert_eq!(v["outputs"], f.outputs.as_str());
    }
    assert_eq!(value["errors"].as_array().unwrap().len(), inv.errors.len());
    for (v, e) in value["errors"].as_array().unwrap().iter().zip(&inv.errors) {
        assert_eq!(v["name"], e.name.as_str());
        assert_eq!(v["discriminant"], e.discriminant);
    }
    for (v, t) in value["types"].as_array().unwrap().iter().zip(&inv.types) {
        assert_eq!(v["name"], t.name.as_str());
        assert_eq!(v["kind"], t.kind.as_str());
        assert_eq!(params(&v["fields"]), owned(&t.fields));
        assert_eq!(v["cases"].as_array().unwrap().len(), t.cases.len());
    }
    for (v, e) in value["events"].as_array().unwrap().iter().zip(&inv.events) {
        assert_eq!(v["name"], e.name.as_str());
        assert_eq!(params(&v["topics"]), owned(&e.topics));
        assert_eq!(params(&v["data"]), owned(&e.data));
    }
}
