use yui::diag::DiagKind;
use yui::meta::{Literal, MetaNode};
use yui::parse::parse;
use yui::schema::{EnumType, FieldKind, FieldSpec, RecordSpec, ScalarType};
use yui::serialize::serialize;
use yui::value::Value;

fn s(t: &str) -> String {
    t.to_string()
}

fn field(name: &str, alias: Option<&str>, kind: FieldKind, default: Option<Literal>) -> FieldSpec {
    FieldSpec { field_name: s(name), alias: alias.map(s), kind, default }
}

fn test_enum() -> EnumType {
    EnumType { name: s("TestEnum"), variants: vec![s("variant_a"), s("variant_b"), s("variant_c")] }
}

fn nv(name: &str, lit: Literal) -> MetaNode {
    MetaNode::NameValue(s(name), lit)
}

fn int_lit(t: &str) -> Literal {
    Literal::Int(s(t), s(t))
}

fn text(t: &str) -> Literal {
    Literal::Str(s(t))
}

fn simple_spec() -> RecordSpec {
    RecordSpec {
        declared_path: s("Simple"),
        fields: vec![
            field("int32", Some("i32"), FieldKind::Scalar(ScalarType::I32), None),
            field("unsigned16", Some("u16"), FieldKind::Scalar(ScalarType::U16), None),
            field("float", None, FieldKind::Scalar(ScalarType::F32), None),
            field("string", None, FieldKind::Scalar(ScalarType::Text), None),
            field(
                "enum1",
                None,
                FieldKind::Optional(Box::new(FieldKind::EnumValue(test_enum()))),
                Some(text("variant_c")),
            ),
            field("enum2", None, FieldKind::EnumValue(test_enum()), None),
        ],
    }
}

fn simple_nodes() -> Vec<MetaNode> {
    vec![
        nv("i32", int_lit("7")),
        nv("u16", int_lit("65535")),
        nv("float", Literal::Float(s("1.5"), s("1.5"))),
        nv("string", text("x")),
        nv("enum2", text("variant_a")),
    ]
}

fn record_fields(v: &Value) -> &Vec<yui::value::FieldValue> {
    match v {
        Value::Record(fs) => fs,
        other => panic!("not a record: {:?}", other),
    }
}

fn lit_of(v: &Value) -> &Literal {
    match v {
        Value::Lit(l) => l,
        other => panic!("not a literal: {:?}", other),
    }
}

fn variant_of(v: &Value) -> &str {
    match v {
        Value::Variant(t) => t,
        other => panic!("not a variant: {:?}", other),
    }
}

#[test]
fn scalar_record_scenario() {
    let spec = RecordSpec {
        declared_path: s("Scalars"),
        fields: vec![
            field("int32", Some("i32"), FieldKind::Scalar(ScalarType::I32), None),
            field("string", None, FieldKind::Scalar(ScalarType::Text), None),
        ],
    };
    let nodes = vec![nv("i32", int_lit("7")), nv("string", text("x"))];
    let v = parse(&nodes, &spec).unwrap();
    let fs = record_fields(&v);
    assert_eq!(fs.len(), 2);
    assert_eq!(fs[0].name, "int32");
    assert_eq!(*lit_of(&fs[0].value), int_lit("7"));
    assert_eq!(fs[1].name, "string");
    assert_eq!(*lit_of(&fs[1].value), text("x"));
}

#[test]
fn nested_with_sequence_scenario() {
    let spec = RecordSpec {
        declared_path: s("Full"),
        fields: vec![
            field("object", None, FieldKind::Nested(simple_spec()), None),
            field(
                "vector",
                None,
                FieldKind::Sequence(Box::new(FieldKind::Scalar(ScalarType::Text))),
                None,
            ),
        ],
    };
    let nodes = vec![
        MetaNode::List(s("object"), simple_nodes()),
        MetaNode::List(
            s("vector"),
            vec![MetaNode::Lit(text("b")), MetaNode::Lit(text("a")), MetaNode::Lit(text("c"))],
        ),
    ];
    let v = parse(&nodes, &spec).unwrap();
    let fs = record_fields(&v);
    let inner = record_fields(&fs[0].value);
    assert_eq!(inner.len(), 6);
    assert_eq!(*lit_of(&inner[0].value), int_lit("7"));
    assert_eq!(variant_of(&inner[4].value), "variant_c");
    assert_eq!(variant_of(&inner[5].value), "variant_a");
    match &fs[1].value {
        Value::List(vs) => {
            let got: Vec<Literal> = vs.iter().map(|x| lit_of(x).clone()).collect();
            assert_eq!(got, vec![text("b"), text("a"), text("c")]);
        },
        other => panic!("not a list: {:?}", other),
    }
}

#[test]
fn optional_enum_default_scenario() {
    let spec = simple_spec();
    let v = parse(&simple_nodes(), &spec).unwrap();
    assert_eq!(variant_of(&record_fields(&v)[4].value), "variant_c");
    let mut nodes = simple_nodes();
    nodes.push(nv("enum1", text("variant_z")));
    let e = parse(&nodes, &spec).unwrap_err();
    assert_eq!(e.kind, DiagKind::UnknownVariant);
    assert_eq!(e.key, "enum1");
    assert_eq!(e.path, "Simple");
    assert_eq!(e.allowed, vec![s("variant_a"), s("variant_b"), s("variant_c")]);
}

#[test]
fn round_trip_keeps_content() {
    let spec = RecordSpec {
        declared_path: s("Full"),
        fields: vec![
            field("object", None, FieldKind::Nested(simple_spec()), None),
            field(
                "vector",
                None,
                FieldKind::Sequence(Box::new(FieldKind::Scalar(ScalarType::Text))),
                None,
            ),
            field(
                "map",
                None,
                FieldKind::Mapping(
                    Box::new(FieldKind::Scalar(ScalarType::Text)),
                    Box::new(FieldKind::EnumValue(test_enum())),
                ),
                None,
            ),
            field(
                "note",
                None,
                FieldKind::Optional(Box::new(FieldKind::Scalar(ScalarType::Text))),
                None,
            ),
        ],
    };
    let nodes = vec![
        MetaNode::List(s("map"), vec![nv("k", text("variant_b")), nv("j", text("variant_a"))]),
        MetaNode::List(s("vector"), vec![MetaNode::Lit(text("a"))]),
        MetaNode::List(s("object"), simple_nodes()),
    ];
    let v = parse(&nodes, &spec).unwrap();
    let written = serialize(&v, &spec);
    assert_eq!(written.len(), 3);
    let again = parse(&written, &spec).unwrap();
    assert_eq!(format!("{:?}", again), format!("{:?}", v));
}

#[test]
fn serialize_writes_alias_and_omits_missing() {
    let spec = RecordSpec {
        declared_path: s("Small"),
        fields: vec![
            field("int32", Some("i32"), FieldKind::Scalar(ScalarType::I32), None),
            field(
                "note",
                None,
                FieldKind::Optional(Box::new(FieldKind::Scalar(ScalarType::Text))),
                None,
            ),
            field("kind", None, FieldKind::EnumValue(test_enum()), None),
        ],
    };
    let v = parse(&vec![nv("kind", Literal::Ident(s("variant_b"))), nv("i32", int_lit("-3"))], &spec)
        .unwrap();
    let written = serialize(&v, &spec);
    assert_eq!(written.len(), 2);
    match &written[0] {
        MetaNode::NameValue(n, l) => {
            assert_eq!(n, "i32");
            assert_eq!(*l, int_lit("-3"));
        },
        other => panic!("unexpected node {:?}", other),
    }
    match &written[1] {
        MetaNode::NameValue(n, l) => {
            assert_eq!(n, "kind");
            assert_eq!(*l, text("variant_b"));
        },
        other => panic!("unexpected node {:?}", other),
    }
}

#[test]
fn supplied_fields_parse() {
    let v = parse(&simple_nodes(), &simple_spec()).unwrap();
    assert_eq!(record_fields(&v).len(), 6);
}

#[test]
fn missing_required_field_fails() {
    let mut nodes = simple_nodes();
    nodes.remove(3);
    let e = parse(&nodes, &simple_spec()).unwrap_err();
    assert_eq!(e.kind, DiagKind::MissingRequiredField);
    assert_eq!(e.key, "string");
    assert_eq!(e.path, "Simple");
    assert!(e.node.is_none());
    assert!(e.allowed.is_empty());
}

#[test]
fn default_substitutes_for_absent_scalar() {
    let spec = RecordSpec {
        declared_path: s("D"),
        fields: vec![field("count", None, FieldKind::Scalar(ScalarType::U8), Some(int_lit("12")))],
    };
    let v = parse(&vec![], &spec).unwrap();
    assert_eq!(*lit_of(&record_fields(&v)[0].value), int_lit("12"));
}

#[test]
fn enum_accepts_exactly_its_variants() {
    let kind = FieldKind::EnumValue(test_enum());
    let key = s("e");
    let path = s("Rec");
    for t in ["variant_a", "variant_b", "variant_c"] {
        let v = yui::parse::parse_node(&kind, &nv("e", text(t)), &key, &path).unwrap();
        assert_eq!(variant_of(&v), t);
    }
    for t in ["Variant_a", "", "variant_d"] {
        let e = yui::parse::parse_node(&kind, &nv("e", text(t)), &key, &path).unwrap_err();
        assert_eq!(e.kind, DiagKind::UnknownVariant);
        assert_eq!(e.path, "Rec");
        assert_eq!(e.allowed.len(), 3);
    }
    let e = yui::parse::parse_node(&kind, &nv("e", int_lit("1")), &key, &path).unwrap_err();
    assert_eq!(e.kind, DiagKind::TypeMismatch);
}

#[test]
fn alias_hides_field_name() {
    let mut nodes = simple_nodes();
    nodes[0] = nv("int32", int_lit("7"));
    let e = parse(&nodes, &simple_spec()).unwrap_err();
    assert_eq!(e.kind, DiagKind::MissingRequiredField);
    assert_eq!(e.key, "i32");
}

#[test]
fn integer_out_of_range() {
    let mut nodes = simple_nodes();
    nodes[1] = nv("u16", int_lit("65536"));
    let e = parse(&nodes, &simple_spec()).unwrap_err();
    assert_eq!(e.kind, DiagKind::IntegerOutOfRange);
    assert_eq!(e.key, "u16");
    nodes[1] = nv("u16", int_lit("-1"));
    assert_eq!(parse(&nodes, &simple_spec()).unwrap_err().kind, DiagKind::IntegerOutOfRange);
    nodes[1] = nv("u16", int_lit("123456789012345678901234567890"));
    assert_eq!(parse(&nodes, &simple_spec()).unwrap_err().kind, DiagKind::IntegerOutOfRange);
}

#[test]
fn wrong_literal_is_type_mismatch() {
    let mut nodes = simple_nodes();
    nodes[0] = nv("i32", text("7"));
    let e = parse(&nodes, &simple_spec()).unwrap_err();
    assert_eq!(e.kind, DiagKind::TypeMismatch);
    assert_eq!(e.key, "i32");
    nodes[0] = nv("i32", int_lit("7x"));
    assert_eq!(parse(&nodes, &simple_spec()).unwrap_err().kind, DiagKind::TypeMismatch);
    nodes[0] = nv("i32", int_lit("-2147483648"));
    assert!(parse(&nodes, &simple_spec()).is_ok());
}

#[test]
fn wrong_shape_is_malformed() {
    let mut nodes = simple_nodes();
    nodes[3] = MetaNode::List(s("string"), vec![]);
    let e = parse(&nodes, &simple_spec()).unwrap_err();
    assert_eq!(e.kind, DiagKind::MalformedShape);
    assert_eq!(e.key, "string");
    nodes[3] = MetaNode::Path(s("string"));
    assert_eq!(parse(&nodes, &simple_spec()).unwrap_err().kind, DiagKind::MalformedShape);
}

#[test]
fn first_failure_wins() {
    let nodes = vec![nv("string", int_lit("1"))];
    let e = parse(&nodes, &simple_spec()).unwrap_err();
    assert_eq!(e.kind, DiagKind::MissingRequiredField);
    assert_eq!(e.key, "i32");
}

#[test]
fn duplicate_nodes_first_wins() {
    let spec = RecordSpec {
        declared_path: s("One"),
        fields: vec![field("a", None, FieldKind::Scalar(ScalarType::Text), None)],
    };
    let v = parse(&vec![nv("a", text("first")), nv("a", text("second"))], &spec).unwrap();
    assert_eq!(*lit_of(&record_fields(&v)[0].value), text("first"));
}

#[test]
fn mapping_last_entry_wins() {
    let spec = RecordSpec {
        declared_path: s("M"),
        fields: vec![field(
            "map",
            None,
            FieldKind::Mapping(
                Box::new(FieldKind::Scalar(ScalarType::Text)),
                Box::new(FieldKind::Scalar(ScalarType::U8)),
            ),
            None,
        )],
    };
    let nodes = vec![MetaNode::List(
        s("map"),
        vec![nv("x", int_lit("1")), nv("y", int_lit("2")), nv("x", int_lit("3"))],
    )];
    let v = parse(&nodes, &spec).unwrap();
    match &record_fields(&v)[0].value {
        Value::Mapping(es) => {
            assert_eq!(es.len(), 2);
            assert_eq!(*lit_of(&es[0].key), text("x"));
            assert_eq!(*lit_of(&es[0].value), int_lit("3"));
            assert_eq!(*lit_of(&es[1].key), text("y"));
            assert_eq!(*lit_of(&es[1].value), int_lit("2"));
        },
        other => panic!("not a mapping: {:?}", other),
    }
}

#[test]
fn empty_sequence_is_not_missing() {
    let spec = RecordSpec {
        declared_path: s("S"),
        fields: vec![field(
            "v",
            None,
            FieldKind::Sequence(Box::new(FieldKind::Scalar(ScalarType::Bool))),
            None,
        )],
    };
    let v = parse(&vec![MetaNode::List(s("v"), vec![])], &spec).unwrap();
    assert!(matches!(&record_fields(&v)[0].value, Value::List(vs) if vs.is_empty()));
}

#[test]
fn optional_without_default_is_missing_marker() {
    let spec = RecordSpec {
        declared_path: s("O"),
        fields: vec![field(
            "o",
            None,
            FieldKind::Optional(Box::new(FieldKind::Scalar(ScalarType::Bool))),
            None,
        )],
    };
    let v = parse(&vec![], &spec).unwrap();
    assert!(matches!(record_fields(&v)[0].value, Value::Missing));
    let v = parse(&vec![nv("o", Literal::Bool(true))], &spec).unwrap();
    assert_eq!(*lit_of(&record_fields(&v)[0].value), Literal::Bool(true));
}

#[test]
fn nested_missing_field_names_inner_record() {
    let spec = RecordSpec {
        declared_path: s("Outer"),
        fields: vec![field("object", None, FieldKind::Nested(simple_spec()), None)],
    };
    let mut inner = simple_nodes();
    inner.remove(0);
    let e = parse(&vec![MetaNode::List(s("object"), inner)], &spec).unwrap_err();
    assert_eq!(e.kind, DiagKind::MissingRequiredField);
    assert_eq!(e.key, "i32");
    assert_eq!(e.path, "Simple");
    let e = parse(&vec![], &spec).unwrap_err();
    assert_eq!(e.key, "object");
    assert_eq!(e.path, "Outer");
}

#[test]
fn plain_name_nodes_are_ignored_under_alias() {
    let mut nodes = simple_nodes();
    nodes.push(nv("int32", text("not even an integer")));
    nodes.push(MetaNode::Path(s("unsigned16")));
    let v = parse(&nodes, &simple_spec()).unwrap();
    assert_eq!(*lit_of(&record_fields(&v)[0].value), int_lit("7"));
}
