use externref::{
    process_fn, process_foreign_mod, Attribute, ExternRefError, ExternRefOptions, FnArg,
    ForeignFn, ForeignItem, FunctionData, Lit, MetaNameValue, NestedMeta, PathSegment, Signature,
    SynPath, TypeSyntax,
};

fn path(segments: &[&str]) -> SynPath {
    SynPath {
        leading_colon: false,
        segments: segments
            .iter()
            .map(|s| PathSegment { ident: s.to_string(), has_arguments: false })
            .collect(),
    }
}

fn ty(name: &str) -> TypeSyntax {
    TypeSyntax::Path(path(&[name]))
}

fn sig(name: &str, inputs: Vec<FnArg>, output: Option<TypeSyntax>) -> Signature {
    Signature { ident: name.to_string(), inputs, output }
}

fn externref_attr(key: &str, value: &str) -> Attribute {
    Attribute {
        path: path(&["externref"]),
        args: Some(vec![NestedMeta::NameValue(MetaNameValue {
            path: path(&[key]),
            lit: Lit::Str(value.to_string()),
        })]),
    }
}

fn example() -> FunctionData {
    FunctionData { name: "Example".into(), arg_indicies: vec![0, 1], ret_is_extern_ref: false }
}

#[test]
fn generate_data_section() {
    let function_data = example();
    let expected = b"{\"name\":\"Example\",\"argIndicies\":[0,1],\"retIsExternRef\":false}";

    // An export that doesn't have a module
    let section = function_data.to_data_section(None).unwrap();
    assert_eq!(section.identifier, "__extern_ref_data_Example");
    assert_eq!(section.length, 61);
    assert_eq!(section.payload, expected.to_vec());

    // An import that does have a module.
    let section = function_data.to_data_section(Some("theModuleName")).unwrap();
    assert_eq!(section.identifier, "__extern_ref_data_theModuleName_Example");
    assert_eq!(section.length, 61);
    assert_eq!(section.payload, expected.to_vec());
}

#[test]
fn payload_is_deterministic() {
    let a = example().to_data_section(Some("m")).unwrap();
    let b = example().to_data_section(Some("m")).unwrap();
    assert_eq!(a.payload, b.payload);
    assert_eq!(a.identifier, b.identifier);
}

#[test]
fn payload_decodes_to_the_metadata() {
    let data = FunctionData {
        name: "päyload \"quoted\"\n".into(),
        arg_indicies: vec![0, 7, 12, 1234567],
        ret_is_extern_ref: true,
    };
    let section = data.to_data_section(None).unwrap();
    let value: serde_json::Value = serde_json::from_slice(&section.payload).unwrap();
    let object = value.as_object().unwrap();
    assert_eq!(object.len(), 3);
    assert_eq!(object["name"].as_str(), Some(data.name.as_str()));
    let indices: Vec<u64> =
        object["argIndicies"].as_array().unwrap().iter().map(|v| v.as_u64().unwrap()).collect();
    assert_eq!(indices, vec![0, 7, 12, 1234567]);
    assert_eq!(object["retIsExternRef"].as_bool(), Some(true));
}

#[test]
fn name_is_escaped_in_payload() {
    let data = FunctionData { name: "a\"b\\c".into(), arg_indicies: vec![], ret_is_extern_ref: false };
    let section = data.to_data_section(None).unwrap();
    assert_eq!(
        section.payload,
        b"{\"name\":\"a\\\"b\\\\c\",\"argIndicies\":[],\"retIsExternRef\":false}".to_vec()
    );
    assert_eq!(section.length, section.payload.len());
}

#[test]
fn payload_with_given_name_json() {
    let payload = example().payload_with_name_json(&b"\"X\"".to_vec());
    assert_eq!(payload, b"{\"name\":\"X\",\"argIndicies\":[0,1],\"retIsExternRef\":false}".to_vec());
    let section = example().data_section_with_name_json(Some("g"), &b"\"X\"".to_vec());
    assert_eq!(section.identifier, "__extern_ref_data_g_Example");
    assert_eq!(section.length, 55);
}

#[test]
fn end_to_end_with_args() {
    let args = vec![FnArg::Typed(ty("ExternRef")), FnArg::Typed(ty("ExternRef"))];
    let section =
        process_fn(&sig("with_args", args, Some(ty("ExternRef"))), ExternRefOptions::default())
            .unwrap();
    assert_eq!(section.identifier, "__extern_ref_data_with_args");
    let expected = b"{\"name\":\"with_args\",\"argIndicies\":[0,1],\"retIsExternRef\":true}";
    assert_eq!(section.payload, expected.to_vec());
    assert_eq!(section.length, expected.len());
    assert_eq!(section.length, 62);
}

#[test]
fn process_fn_uses_name_option() {
    let options = ExternRefOptions { name: Some("printNTimes".to_string()) };
    let args = vec![FnArg::Typed(ty("ExternRef")), FnArg::Typed(ty("usize"))];
    let section = process_fn(&sig("print_n_times", args, None), options).unwrap();
    assert_eq!(section.identifier, "__extern_ref_data_printNTimes");
    assert_eq!(
        section.payload,
        b"{\"name\":\"printNTimes\",\"argIndicies\":[0],\"retIsExternRef\":false}".to_vec()
    );
}

#[test]
fn identifiers_of_distinct_sites_differ() {
    let groups: Vec<Option<&str>> = vec![None, Some("console"), Some("env"), Some("theModuleName")];
    let names = ["log", "Example", "with_args", "a", "console_log2", "x9"];
    let mut seen: Vec<String> = Vec::new();
    for g in &groups {
        for n in &names {
            let data = FunctionData { name: n.to_string(), arg_indicies: vec![], ret_is_extern_ref: false };
            let id = data.section_identifier(*g);
            assert!(!seen.contains(&id), "duplicate identifier {id}");
            seen.push(id);
        }
    }
    assert_eq!(seen.len(), groups.len() * names.len());
}

#[test]
fn foreign_block_members_are_named_and_prefixed() {
    let items = vec![
        ForeignItem::Fn(ForeignFn {
            attrs: vec![externref_attr("name", "log")],
            sig: sig("console_log", vec![FnArg::Typed(ty("ExternRef"))], None),
        }),
        ForeignItem::Other,
        ForeignItem::Fn(ForeignFn {
            attrs: vec![],
            sig: sig("warn", vec![FnArg::Typed(ty("u32"))], Some(ty("ExternRef"))),
        }),
    ];
    let options = ExternRefOptions { name: Some("console".to_string()) };
    let block = process_foreign_mod(options, &items).unwrap();
    assert_eq!(block.module, "console");
    assert_eq!(block.functions.len(), 2);
    assert_eq!(block.functions[0].data.name, "log");
    assert_eq!(block.functions[0].section.identifier, "__extern_ref_data_console_log");
    assert_eq!(
        block.functions[0].section.payload,
        b"{\"name\":\"log\",\"argIndicies\":[0],\"retIsExternRef\":false}".to_vec()
    );
    assert_eq!(block.functions[1].data.name, "warn");
    assert_eq!(block.functions[1].section.identifier, "__extern_ref_data_console_warn");
    assert!(block.functions[1].data.ret_is_extern_ref);
}

#[test]
fn foreign_block_needs_module_name() {
    let items = vec![ForeignItem::Fn(ForeignFn { attrs: vec![], sig: sig("f", vec![], None) })];
    let r = process_foreign_mod(ExternRefOptions::default(), &items);
    assert!(matches!(r, Err(ExternRefError::MissingModuleName)));
}

#[test]
fn bogus_option_yields_no_block() {
    let items = vec![
        ForeignItem::Fn(ForeignFn { attrs: vec![], sig: sig("ok", vec![], None) }),
        ForeignItem::Fn(ForeignFn {
            attrs: vec![externref_attr("bogus", "x")],
            sig: sig("bad", vec![], None),
        }),
    ];
    let options = ExternRefOptions { name: Some("env".to_string()) };
    let r = process_foreign_mod(options, &items);
    match r {
        Err(ExternRefError::InvalidOption(key)) => assert_eq!(key, "bogus"),
        other => panic!("unexpected {:?}", other),
    }
}

fn named(name: &str) -> FunctionData {
    FunctionData { name: name.to_string(), arg_indicies: vec![], ret_is_extern_ref: false }
}

#[test]
fn duplicate_identifiers_are_found() {
    let sections = vec![
        named("log").to_data_section(Some("console")).unwrap(),
        named("console_log").to_data_section(None).unwrap(),
        named("warn").to_data_section(Some("console")).unwrap(),
        named("log").to_data_section(Some("console")).unwrap(),
    ];
    assert_eq!(externref::find_duplicate_identifier(&sections), Some((0, 1)));
    let distinct = vec![
        named("log").to_data_section(Some("console")).unwrap(),
        named("log").to_data_section(None).unwrap(),
        named("warn").to_data_section(Some("console")).unwrap(),
    ];
    assert_eq!(externref::find_duplicate_identifier(&distinct), None);
    assert_eq!(externref::find_duplicate_identifier(&vec![]), None);
}

#[test]
fn later_duplicate_pair_is_found() {
    let sections = vec![
        named("a").to_data_section(None).unwrap(),
        named("b").to_data_section(None).unwrap(),
        named("c").to_data_section(None).unwrap(),
        named("b").to_data_section(None).unwrap(),
    ];
    assert_eq!(externref::find_duplicate_identifier(&sections), Some((1, 3)));
}

#[test]
fn control_characters_are_escaped_in_payload() {
    let data = named("\u{1}\u{1f}\u{8}\u{c}\n\r\t\u{7f}é/");
    let section = data.to_data_section(None).unwrap();
    let mut expected: Vec<u8> = b"{\"name\":\"\\u0001\\u001f\\b\\f\\n\\r\\t".to_vec();
    expected.push(0x7f);
    expected.extend_from_slice("é/".as_bytes());
    expected.extend_from_slice(b"\",\"argIndicies\":[],\"retIsExternRef\":false}");
    assert_eq!(section.payload, expected);
    assert_eq!(section.length, expected.len());
}
