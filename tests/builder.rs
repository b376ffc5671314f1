use enum_dict::classify::{classify, Effect, FieldSchema, Operation};
use enum_dict::directive::{parse_directive, Directive, DirectiveError, DirectiveOption, OptionValue};
use enum_dict::dump::{derive_enum_to_dict, dump_function};
use enum_dict::runtime::{Arg, CallError, FieldValue, RecordBuilder};
use enum_dict::shape::{strip_optional, unwrap_optional, unwrap_sequence, TypeRef};
use enum_dict::synth::{derive_builder, synthesize, BuilderDecl, DeclBody, DeclInput, Requirement};

fn ty(name: &str) -> TypeRef {
    TypeRef { name: name.to_string(), params: vec![] }
}

fn wrap(name: &str, inner: TypeRef) -> TypeRef {
    TypeRef { name: name.to_string(), params: vec![inner] }
}

fn each(value: &str) -> Directive {
    option("each", OptionValue::Text(value.to_string()))
}

fn option(key: &str, value: OptionValue) -> Directive {
    Directive {
        tag: "builder".to_string(),
        options: vec![DirectiveOption { key: key.to_string(), value }],
    }
}

fn field(name: &str, t: TypeRef, directives: Vec<Directive>) -> FieldSchema {
    FieldSchema { name: name.to_string(), ty: t, directives }
}

fn record(name: &str, fields: Vec<FieldSchema>) -> BuilderDecl {
    derive_builder(DeclInput { name: name.to_string(), body: DeclBody::Record(fields) }).unwrap()
}

fn strings(items: &[&str]) -> Vec<String> {
    items.iter().map(|s| s.to_string()).collect()
}

fn one(s: &str) -> Arg<String> {
    Arg::One(s.to_string())
}

fn command_fields() -> Vec<FieldSchema> {
    vec![
        field("executable", ty("String"), vec![]),
        field("args", wrap("Vec", ty("String")), vec![]),
        field("env", wrap("Vec", ty("String")), vec![]),
        field("current_dir", ty("String"), vec![]),
    ]
}

#[test]
fn unwraps_one_layer_of_option() {
    let t = wrap("Option", ty("String"));
    assert_eq!(unwrap_optional(&t), Some(&ty("String")));
    assert_eq!(unwrap_sequence(&t), None);
    let nested = wrap("Option", wrap("Vec", ty("u8")));
    assert_eq!(unwrap_optional(&nested), Some(&wrap("Vec", ty("u8"))));
}

#[test]
fn other_shapes_are_not_unwrapped() {
    assert_eq!(unwrap_optional(&ty("String")), None);
    let two = TypeRef { name: "Option".to_string(), params: vec![ty("A"), ty("B")] };
    assert_eq!(unwrap_optional(&two), None);
    assert_eq!(unwrap_sequence(&wrap("VecDeque", ty("u8"))), None);
    assert_eq!(unwrap_sequence(&wrap("Vec", ty("u8"))), Some(&ty("u8")));
}

#[test]
fn strips_optional_layer() {
    assert_eq!(strip_optional(wrap("Option", ty("u8"))), (true, ty("u8")));
    assert_eq!(strip_optional(ty("u8")), (false, ty("u8")));
}

#[test]
fn directive_absent_or_other_tag() {
    let name = "args".to_string();
    let t = wrap("Vec", ty("String"));
    assert_eq!(parse_directive(&name, &vec![], &t), Ok(None));
    let other = Directive { tag: "serde".to_string(), options: vec![] };
    assert_eq!(parse_directive(&name, &vec![other], &t), Ok(None));
}

#[test]
fn directive_names_accumulator() {
    let name = "args".to_string();
    let t = wrap("Vec", ty("String"));
    assert_eq!(parse_directive(&name, &vec![each("arg")], &t), Ok(Some("arg".to_string())));
}

#[test]
fn directive_with_two_options_is_malformed() {
    let name = "args".to_string();
    let t = wrap("Vec", ty("String"));
    let mut d = each("arg");
    d.options.push(DirectiveOption { key: "each".to_string(), value: OptionValue::Text("x".to_string()) });
    assert_eq!(
        parse_directive(&name, &vec![d], &t),
        Err(DirectiveError::Malformed { field: name.clone() })
    );
    let empty = Directive { tag: "builder".to_string(), options: vec![] };
    assert_eq!(
        parse_directive(&name, &vec![empty], &t),
        Err(DirectiveError::Malformed { field: name.clone() })
    );
}

#[test]
fn directive_with_non_literal_value_is_malformed() {
    let name = "args".to_string();
    let t = wrap("Vec", ty("String"));
    let d = option("each", OptionValue::Other("3".to_string()));
    assert_eq!(parse_directive(&name, &vec![d], &t), Err(DirectiveError::Malformed { field: name.clone() }));
}

#[test]
fn directive_with_unknown_key() {
    let name = "args".to_string();
    let t = wrap("Vec", ty("String"));
    let d = option("eac", OptionValue::Text("arg".to_string()));
    assert_eq!(
        parse_directive(&name, &vec![d], &t),
        Err(DirectiveError::UnrecognizedOption { field: name.clone(), key: "eac".to_string() })
    );
}

#[test]
fn directive_on_non_sequence_field() {
    let name = "executable".to_string();
    assert_eq!(
        parse_directive(&name, &vec![each("exe")], &ty("String")),
        Err(DirectiveError::RequiresSequence { field: name.clone() })
    );
}

#[test]
fn classify_plain_field() {
    let c = classify(field("executable", ty("String"), vec![]));
    assert!(!c.is_optional && !c.has_accumulator);
    assert_eq!(c.element_type, ty("String"));
    assert_eq!(
        c.operations,
        vec![Operation::Setter { name: "executable".to_string(), effect: Effect::Replace }]
    );
}

#[test]
fn classify_optional_field() {
    let c = classify(field("current_dir", wrap("Option", ty("String")), vec![]));
    assert!(c.is_optional && !c.has_accumulator);
    assert_eq!(c.element_type, ty("String"));
}

#[test]
fn classify_accumulator_with_distinct_name() {
    let c = classify(field("args", wrap("Vec", ty("String")), vec![each("arg")]));
    assert!(c.has_accumulator);
    assert_eq!(c.element_type, ty("String"));
    assert_eq!(
        c.operations,
        vec![
            Operation::Setter { name: "args".to_string(), effect: Effect::ReplaceAll },
            Operation::Setter { name: "arg".to_string(), effect: Effect::Append },
        ]
    );
}

#[test]
fn classify_accumulator_with_shared_name() {
    let c = classify(field("args", wrap("Vec", ty("String")), vec![each("args")]));
    assert!(c.has_accumulator);
    assert_eq!(c.operations, vec![Operation::Setter { name: "args".to_string(), effect: Effect::Append }]);
}

#[test]
fn classify_optional_sequence_with_directive() {
    let c = classify(field("tags", wrap("Option", wrap("Vec", ty("String"))), vec![each("tag")]));
    assert!(c.is_optional && c.has_accumulator);
    assert_eq!(c.element_type, ty("String"));
}

#[test]
fn classify_optional_sequence_with_bad_directive() {
    let d = option("every", OptionValue::Text("tag".to_string()));
    let c = classify(field("tags", wrap("Option", wrap("Vec", ty("String"))), vec![d]));
    assert!(c.is_optional && !c.has_accumulator);
    assert_eq!(c.element_type, wrap("Vec", ty("String")));
    assert_eq!(
        c.operations,
        vec![Operation::Rejected {
            error: DirectiveError::UnrecognizedOption { field: "tags".to_string(), key: "every".to_string() }
        }]
    );
}

#[test]
fn synthesized_layout() {
    let d = record("Command", vec![
        field("executable", ty("String"), vec![]),
        field("args", wrap("Vec", ty("String")), vec![each("arg")]),
        field("current_dir", wrap("Option", ty("String")), vec![]),
    ]);
    assert_eq!(d.record_name, "Command");
    assert_eq!(d.builder_name, "CommandBuilder");
    let reqs: Vec<Requirement> = d.slots.iter().map(|s| s.requirement).collect();
    assert_eq!(reqs, vec![Requirement::Required, Requirement::Accumulated, Requirement::Optional]);
    let setters: Vec<(String, usize, Effect)> = d.setters.iter().map(|s| (s.name.clone(), s.slot, s.effect)).collect();
    assert_eq!(
        setters,
        vec![
            ("executable".to_string(), 0, Effect::Replace),
            ("args".to_string(), 1, Effect::ReplaceAll),
            ("arg".to_string(), 1, Effect::Append),
            ("current_dir".to_string(), 2, Effect::Replace),
        ]
    );
    assert!(d.rejected.is_empty());
}

#[test]
fn synthesize_from_classifications() {
    let cs = vec![classify(field("a", ty("u8"), vec![]))];
    let d = synthesize("Small".to_string(), cs);
    assert_eq!(d.builder_name, "SmallBuilder");
    assert_eq!(d.slots.len(), 1);
    assert_eq!(d.slots[0].field, "a");
}

#[test]
fn non_record_input_is_structural_mismatch() {
    for body in [DeclBody::Tuple, DeclBody::Unit, DeclBody::Union, DeclBody::Enumeration(vec![])] {
        let r = derive_builder(DeclInput { name: "X".to_string(), body });
        assert_eq!(r.unwrap_err().name, "X");
    }
}

#[test]
fn command_record_full_build() {
    let mut b: RecordBuilder<Vec<String>> = RecordBuilder::new(record("Command", command_fields()));
    assert_eq!(b.call("executable", Arg::One(strings(&["cargo"]))), Ok(()));
    assert_eq!(b.call("args", Arg::One(strings(&["build", "--release"]))), Ok(()));
    assert_eq!(b.call("env", Arg::One(vec![])), Ok(()));
    assert_eq!(b.call("current_dir", Arg::One(strings(&[".."]))), Ok(()));
    let values = b.build().unwrap();
    assert_eq!(
        values,
        vec![
            FieldValue::Value(strings(&["cargo"])),
            FieldValue::Value(strings(&["build", "--release"])),
            FieldValue::Value(vec![]),
            FieldValue::Value(strings(&[".."])),
        ]
    );
}

#[test]
fn command_record_missing_list() {
    let mut b: RecordBuilder<Vec<String>> = RecordBuilder::new(record("Command", command_fields()));
    b.call("executable", Arg::One(strings(&["cargo"]))).unwrap();
    let err = b.build().unwrap_err();
    assert_eq!(err.missing, strings(&["args", "env", "current_dir"]));
    assert_eq!(err.message(), "args, env, current_dir");
}

#[test]
fn fresh_required_builder_misses_all_fields() {
    let b: RecordBuilder<String> = RecordBuilder::new(record("R", vec![
        field("a", ty("String"), vec![]),
        field("b", ty("String"), vec![]),
        field("c", ty("String"), vec![]),
    ]));
    assert_eq!(b.build().unwrap_err().missing, strings(&["a", "b", "c"]));
}

#[test]
fn required_fields_complete_only_when_all_set() {
    let decl = || record("R", vec![field("a", ty("String"), vec![]), field("b", ty("String"), vec![])]);
    let mut b: RecordBuilder<String> = RecordBuilder::new(decl());
    b.call("a", one("1")).unwrap();
    b.call("a", one("2")).unwrap();
    assert_eq!(b.build().unwrap_err().missing, strings(&["b"]));
    let mut b: RecordBuilder<String> = RecordBuilder::new(decl());
    b.call("b", one("1")).unwrap();
    b.call("a", one("2")).unwrap();
    assert!(b.build().is_ok());
}

#[test]
fn plain_setter_overwrites() {
    let mut b: RecordBuilder<String> = RecordBuilder::new(record("R", vec![field("a", ty("String"), vec![])]));
    b.call("a", one("first")).unwrap();
    b.call("a", one("second")).unwrap();
    assert_eq!(b.build().unwrap(), vec![FieldValue::Value("second".to_string())]);
}

#[test]
fn accumulator_with_distinct_name_appends_in_order() {
    let mut b: RecordBuilder<String> =
        RecordBuilder::new(record("Command", vec![field("args", wrap("Vec", ty("String")), vec![each("arg")])]));
    assert_eq!(b.call("arg", one("build")), Ok(()));
    assert_eq!(b.call("arg", one("--release")), Ok(()));
    assert_eq!(b.build().unwrap(), vec![FieldValue::Items(strings(&["build", "--release"]))]);
}

#[test]
fn replacer_discards_accumulated_elements() {
    let mut b: RecordBuilder<String> =
        RecordBuilder::new(record("Command", vec![field("args", wrap("Vec", ty("String")), vec![each("arg")])]));
    b.call("arg", one("a")).unwrap();
    b.call("arg", one("b")).unwrap();
    b.call("arg", one("c")).unwrap();
    assert_eq!(b.call("args", Arg::All(strings(&["x"]))), Ok(()));
    assert_eq!(b.build().unwrap(), vec![FieldValue::Items(strings(&["x"]))]);
}

#[test]
fn accumulator_with_shared_name_only_appends() {
    let decl = record("Command", vec![field("args", wrap("Vec", ty("String")), vec![each("args")])]);
    assert_eq!(decl.setters.len(), 1);
    let mut b: RecordBuilder<String> = RecordBuilder::new(decl);
    assert_eq!(b.call("args", one("build")), Ok(()));
    assert_eq!(b.call("args", Arg::All(strings(&["x", "y"]))), Err(CallError::WrongArgument));
    assert_eq!(b.call("args", one("--release")), Ok(()));
    assert_eq!(b.build().unwrap(), vec![FieldValue::Items(strings(&["build", "--release"]))]);
}

#[test]
fn unknown_setter_is_refused() {
    let mut b: RecordBuilder<String> = RecordBuilder::new(record("R", vec![field("a", ty("String"), vec![])]));
    assert_eq!(b.call("b", one("x")), Err(CallError::UnknownSetter));
    assert_eq!(b.call("a", Arg::All(vec![])), Err(CallError::WrongArgument));
}

#[test]
fn optional_fields_are_never_missing() {
    let decl = || record("R", vec![field("a", wrap("Option", ty("String")), vec![]), field("b", ty("String"), vec![])]);
    let mut b: RecordBuilder<String> = RecordBuilder::new(decl());
    b.call("b", one("x")).unwrap();
    assert_eq!(b.build().unwrap(), vec![FieldValue::Maybe(None), FieldValue::Value("x".to_string())]);
    let mut b: RecordBuilder<String> = RecordBuilder::new(decl());
    b.call("a", one("y")).unwrap();
    b.call("b", one("x")).unwrap();
    assert_eq!(
        b.build().unwrap(),
        vec![FieldValue::Maybe(Some("y".to_string())), FieldValue::Value("x".to_string())]
    );
    let b: RecordBuilder<String> = RecordBuilder::new(decl());
    assert_eq!(b.build().unwrap_err().missing, strings(&["b"]));
}

#[test]
fn untouched_accumulator_is_empty() {
    let b: RecordBuilder<String> =
        RecordBuilder::new(record("Command", vec![field("args", wrap("Vec", ty("String")), vec![each("arg")])]));
    assert_eq!(b.build().unwrap(), vec![FieldValue::Items(vec![])]);
}

#[test]
fn directive_on_non_sequence_field_rejects_only_that_field() {
    let decl = record("Command", vec![
        field("executable", ty("String"), vec![each("exe")]),
        field("args", wrap("Vec", ty("String")), vec![each("arg")]),
        field("current_dir", ty("String"), vec![]),
    ]);
    assert_eq!(decl.rejected, vec![DirectiveError::RequiresSequence { field: "executable".to_string() }]);
    let names: Vec<String> = decl.setters.iter().map(|s| s.name.clone()).collect();
    assert_eq!(names, strings(&["args", "arg", "current_dir"]));
    assert_eq!(decl.slots[0].requirement, Requirement::Required);
    let mut b: RecordBuilder<String> = RecordBuilder::new(decl);
    assert_eq!(b.call("executable", one("cargo")), Err(CallError::UnknownSetter));
    b.call("arg", one("build")).unwrap();
    b.call("current_dir", one("..")).unwrap();
    assert_eq!(b.build().unwrap_err().missing, strings(&["executable"]));
}

#[test]
fn enum_listing_function() {
    let input = DeclInput {
        name: "TestConfVar".to_string(),
        body: DeclBody::Enumeration(strings(&["PC_LINK_MAX", "PC_NAME_MAX"])),
    };
    let f = derive_enum_to_dict(input).unwrap();
    assert_eq!(f.name, "testconfvar_names");
    assert_eq!(f.enum_name, "TestConfVar");
    assert_eq!(f.variants, strings(&["PC_LINK_MAX", "PC_NAME_MAX"]));
}

#[test]
fn enum_listing_from_lowered_name() {
    let f = dump_function("MTest".to_string(), "mtest".to_string(), vec![]);
    assert_eq!(f.name, "mtest_names");
}

#[test]
fn enum_listing_refuses_records() {
    let input = DeclInput { name: "Command".to_string(), body: DeclBody::Record(vec![]) };
    assert_eq!(derive_enum_to_dict(input).unwrap_err().name, "Command");
}
