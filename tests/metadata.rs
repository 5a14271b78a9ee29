use externref::{
    AttributesOrOptions, Attribute, ExternRefError, ExternRefOptions, FnArg, FunctionData, Lit,
    MetaNameValue, NestedMeta, PathSegment, Signature, SynPath, TypeSyntax,
};

fn path(segments: &[&str]) -> SynPath {
    SynPath {
        leading_colon: false,
        segments: segments
            .iter()
            .map(|s| PathSegment { ident: s.to_string(), has_arguments: false })
            .collect(),
    }
}

fn ty(name: &str) -> TypeSyntax {
    TypeSyntax::Path(path(&[name]))
}

fn sig(name: &str, inputs: Vec<FnArg>, output: Option<TypeSyntax>) -> Signature {
    Signature { ident: name.to_string(), inputs, output }
}

fn name_option(key: &str, value: &str) -> NestedMeta {
    NestedMeta::NameValue(MetaNameValue {
        path: path(&[key]),
        lit: Lit::Str(value.to_string()),
    })
}

fn externref_attr(name: &str) -> Attribute {
    Attribute { path: path(&["externref"]), args: Some(vec![name_option("name", name)]) }
}

fn opts() -> AttributesOrOptions<'static> {
    AttributesOrOptions::Options(ExternRefOptions::default())
}

#[test]
fn parse_provided_opts() {
    let data = FunctionData::parse(&sig("no_args_or_ret", vec![], None), opts()).unwrap();
    assert_eq!(data.name, "no_args_or_ret");
    assert!(!data.ret_is_extern_ref);
    assert!(data.arg_indicies.is_empty());

    let data =
        FunctionData::parse(&sig("with_externref_ret", vec![], Some(ty("ExternRef"))), opts())
            .unwrap();
    assert_eq!(data.name, "with_externref_ret");
    assert!(data.ret_is_extern_ref);
    assert!(data.arg_indicies.is_empty());

    let args = vec![FnArg::Typed(ty("ExternRef")), FnArg::Typed(ty("ExternRef"))];
    let data = FunctionData::parse(&sig("with_args", args, Some(ty("ExternRef"))), opts()).unwrap();
    assert_eq!(data.name, "with_args");
    assert!(data.ret_is_extern_ref);
    assert_eq!(data.arg_indicies, &[0, 1]);
}

#[test]
fn parse_with_attrs() {
    let attrs = vec![externref_attr("no_args_or_ret")];
    let data = FunctionData::parse(
        &sig("name", vec![], None),
        AttributesOrOptions::Attributes(&attrs),
    )
    .unwrap();
    assert_eq!(data.name, "no_args_or_ret");
    assert!(!data.ret_is_extern_ref);
    assert!(data.arg_indicies.is_empty());

    let attrs = vec![externref_attr("with_externref_ret")];
    let data = FunctionData::parse(
        &sig("name", vec![], Some(ty("ExternRef"))),
        AttributesOrOptions::Attributes(&attrs),
    )
    .unwrap();
    assert_eq!(data.name, "with_externref_ret");
    assert!(data.ret_is_extern_ref);
    assert!(data.arg_indicies.is_empty());

    let attrs = vec![externref_attr("with_args")];
    let args = vec![FnArg::Typed(ty("ExternRef")), FnArg::Typed(ty("ExternRef"))];
    let data = FunctionData::parse(
        &sig("name", args, Some(ty("ExternRef"))),
        AttributesOrOptions::Attributes(&attrs),
    )
    .unwrap();
    assert_eq!(data.name, "with_args");
    assert!(data.ret_is_extern_ref);
    assert_eq!(data.arg_indicies, &[0, 1]);
}

#[test]
fn name_option_overrides_identifier() {
    let options = ExternRefOptions { name: Some("custom".to_string()) };
    let data = FunctionData::parse(
        &sig("no_args_or_ret", vec![], None),
        AttributesOrOptions::Options(options),
    )
    .unwrap();
    assert_eq!(data.name, "custom");
}

#[test]
fn unmarked_function_has_no_positions() {
    let args = vec![FnArg::Receiver, FnArg::Typed(ty("u32")), FnArg::Typed(TypeSyntax::Other)];
    let data = FunctionData::parse(&sig("plain", args, Some(ty("u64"))), opts()).unwrap();
    assert!(data.arg_indicies.is_empty());
    assert!(!data.ret_is_extern_ref);
}

#[test]
fn positions_follow_declaration_order() {
    let args = vec![
        FnArg::Typed(ty("u32")),
        FnArg::Typed(ty("ExternRef")),
        FnArg::Typed(ty("u8")),
        FnArg::Typed(ty("ExternRef")),
    ];
    let data = FunctionData::parse(&sig("mixed", args, None), opts()).unwrap();
    assert_eq!(data.arg_indicies, vec![1, 3]);
    assert!(!data.ret_is_extern_ref);
}

#[test]
fn qualified_or_generic_marker_is_not_recognised() {
    let qualified = TypeSyntax::Path(path(&["externref", "ExternRef"]));
    let rooted = TypeSyntax::Path(SynPath { leading_colon: true, ..path(&["ExternRef"]) });
    let generic = TypeSyntax::Path(SynPath {
        leading_colon: false,
        segments: vec![PathSegment { ident: "ExternRef".to_string(), has_arguments: true }],
    });
    assert!(externref::type_is_extern_ref(&ty("ExternRef")));
    assert!(!externref::type_is_extern_ref(&qualified));
    assert!(!externref::type_is_extern_ref(&rooted));
    assert!(!externref::type_is_extern_ref(&generic));
    assert!(!externref::type_is_extern_ref(&ty("Externref")));
    let args = vec![FnArg::Typed(qualified), FnArg::Typed(generic)];
    let data = FunctionData::parse(&sig("f", args, Some(rooted)), opts()).unwrap();
    assert!(data.arg_indicies.is_empty());
    assert!(!data.ret_is_extern_ref);
}

#[test]
fn attributes_without_externref_give_defaults() {
    let attrs = vec![Attribute { path: path(&["inline"]), args: None }];
    let data = FunctionData::parse(
        &sig("own_name", vec![], None),
        AttributesOrOptions::Attributes(&attrs),
    )
    .unwrap();
    assert_eq!(data.name, "own_name");
}

#[test]
fn first_externref_attribute_wins() {
    let attrs = vec![
        Attribute { path: path(&["doc"]), args: None },
        externref_attr("first"),
        externref_attr("second"),
    ];
    let data = FunctionData::parse(
        &sig("f", vec![], None),
        AttributesOrOptions::Attributes(&attrs),
    )
    .unwrap();
    assert_eq!(data.name, "first");
}

#[test]
fn malformed_externref_attribute_is_rejected() {
    let attrs = vec![Attribute { path: path(&["externref"]), args: None }];
    let r = FunctionData::parse(&sig("f", vec![], None), AttributesOrOptions::Attributes(&attrs));
    assert!(matches!(r, Err(ExternRefError::MalformedAttribute)));
}

#[test]
fn bad_option_in_attribute_is_rejected() {
    let attrs = vec![Attribute {
        path: path(&["externref"]),
        args: Some(vec![name_option("bogus", "x")]),
    }];
    let r = FunctionData::parse(&sig("f", vec![], None), AttributesOrOptions::Attributes(&attrs));
    match r {
        Err(ExternRefError::InvalidOption(key)) => assert_eq!(key, "bogus"),
        other => panic!("unexpected {:?}", other),
    }
}

#[test]
fn options_and_attributes_convert_into_sources() {
    let from_opts: AttributesOrOptions = ExternRefOptions { name: Some("x".to_string()) }.into();
    let data = FunctionData::parse(&sig("f", vec![], None), from_opts).unwrap();
    assert_eq!(data.name, "x");
    let attrs = vec![externref_attr("y")];
    let from_attrs: AttributesOrOptions = attrs.as_slice().into();
    let data = FunctionData::parse(&sig("f", vec![], None), from_attrs).unwrap();
    assert_eq!(data.name, "y");
}

#[test]
fn foreign_fn_takes_link_name_from_attribute() {
    let func = externref::ForeignFn {
        attrs: vec![externref_attr("log")],
        sig: sig("console_log", vec![FnArg::Typed(ty("ExternRef"))], None),
    };
    let data = externref::process_foreign_fn(&func).unwrap();
    assert_eq!(data.name, "log");
    assert_eq!(data.arg_indicies, vec![0]);
    let plain = externref::ForeignFn { attrs: vec![], sig: sig("console_log", vec![], None) };
    assert_eq!(externref::process_foreign_fn(&plain).unwrap().name, "console_log");
}
