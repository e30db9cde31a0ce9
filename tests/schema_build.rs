use yui::attribute::{NoField, Tuple};
use yui::diag::{DiagKind, SchemaError};
use yui::helper::{get_lit_as_string, get_lit_bool, get_lit_float, get_lit_int, get_lit_str};
use yui::host::{
    build_schema, get_nested_type, unwrap_punctuated_first, unwrap_punctuated_last,
    unwrap_type_path, Attribute, DeclData, DeclInput, FieldDecl, HostType, TypeArg, TypeSegment,
};
use yui::meta::Literal;
use yui::schema::{EnumType, FieldKind, RecordSpec, ScalarType};

fn s(t: &str) -> String {
    t.to_string()
}

fn path(name: &str, args: Vec<HostType>) -> HostType {
    HostType::Path(vec![TypeSegment {
        ident: s(name),
        args: args.into_iter().map(TypeArg::Type).collect(),
    }])
}

fn decl(name: &str, ty: HostType, alias: Option<&str>, enum_value: bool) -> FieldDecl {
    FieldDecl { name: s(name), ty, alias: alias.map(s), enum_value, default: None }
}

fn test_enum() -> EnumType {
    EnumType { name: s("TestEnum"), variants: vec![s("variant_a"), s("variant_c")] }
}

#[test]
fn build_schema_classifies_types() {
    let simple = RecordSpec { declared_path: s("Simple"), fields: vec![] };
    let fields = vec![
        decl("int32", path("i32", vec![]), Some("i32"), false),
        decl("object", path("Simple", vec![]), None, false),
        decl("vector", path("Vec", vec![path("String", vec![])]), None, false),
        decl(
            "map",
            path("HashMap", vec![path("String", vec![]), path("TestEnum", vec![])]),
            None,
            true,
        ),
        decl("enum1", path("Option", vec![path("TestEnum", vec![])]), None, true),
    ];
    let spec = build_schema(&s("Full"), &fields, &vec![test_enum()], &vec![simple]).unwrap();
    assert_eq!(spec.declared_path, "Full");
    assert_eq!(spec.fields.len(), 5);
    assert_eq!(spec.fields[0].alias.as_deref(), Some("i32"));
    assert!(matches!(spec.fields[0].kind, FieldKind::Scalar(ScalarType::I32)));
    assert!(matches!(&spec.fields[1].kind, FieldKind::Nested(r) if r.declared_path == "Simple"));
    assert!(matches!(&spec.fields[2].kind, FieldKind::Sequence(k) if matches!(**k, FieldKind::Scalar(ScalarType::Text))));
    match &spec.fields[3].kind {
        FieldKind::Mapping(k, v) => {
            assert!(matches!(**k, FieldKind::Scalar(ScalarType::Text)));
            assert!(matches!(&**v, FieldKind::EnumValue(e) if e.variants.len() == 2));
        },
        other => panic!("unexpected kind {:?}", other),
    }
    assert!(matches!(&spec.fields[4].kind, FieldKind::Optional(k) if matches!(&**k, FieldKind::EnumValue(e) if e.name == "TestEnum")));
}

#[test]
fn build_schema_rejects_unknown_type() {
    let fields = vec![
        decl("a", path("u8", vec![]), None, false),
        decl("b", path("f128", vec![]), None, false),
    ];
    assert_eq!(build_schema(&s("R"), &fields, &vec![], &vec![]).unwrap_err(), SchemaError::UnsupportedFieldType);
    let fields = vec![decl("c", HostType::Other, None, false)];
    assert_eq!(build_schema(&s("R"), &fields, &vec![], &vec![]).unwrap_err(), SchemaError::UnsupportedFieldType);
    let fields = vec![decl("d", path("Missing", vec![]), None, true)];
    assert_eq!(build_schema(&s("R"), &fields, &vec![test_enum()], &vec![]).unwrap_err(), SchemaError::UnsupportedFieldType);
    let fields = vec![decl("e", path("Option", vec![]), None, false)];
    assert_eq!(build_schema(&s("R"), &fields, &vec![], &vec![]).unwrap_err(), SchemaError::UnsupportedFieldType);
}

#[test]
fn from_ast_reads_structs_only() {
    let input = DeclInput {
        ident: s("Simple"),
        data: DeclData::Struct(vec![decl("flag", path("bool", vec![]), None, false)]),
    };
    let a = Attribute::from_ast(&input, &vec![], &vec![]).unwrap();
    assert_eq!(a.ident, "Simple");
    assert_eq!(a.path, "Simple");
    assert_eq!(a.schema.declared_path, "Simple");
    assert!(matches!(a.schema.fields[0].kind, FieldKind::Scalar(ScalarType::Bool)));
    let input = DeclInput { ident: s("E"), data: DeclData::Enum };
    assert_eq!(Attribute::from_ast(&input, &vec![], &vec![]).unwrap_err(), SchemaError::NotAStruct);
}

#[test]
fn type_helpers() {
    let items = vec![1, 2, 3];
    assert_eq!(unwrap_punctuated_first(&items, "e"), Ok(&1));
    assert_eq!(unwrap_punctuated_last(&items, "e"), Ok(&3));
    let none: Vec<i32> = vec![];
    assert_eq!(unwrap_punctuated_first(&none, "e"), Err("e"));
    assert_eq!(unwrap_punctuated_last(&none, "e"), Err("e"));
    let ty = path("Vec", vec![path("u8", vec![])]);
    let segs = unwrap_type_path(&ty).unwrap();
    let nested = get_nested_type(&segs[0]).unwrap();
    match nested {
        HostType::Path(ss) => assert_eq!(ss[0].ident, "u8"),
        HostType::Other => panic!("expected a path"),
    }
    assert!(unwrap_type_path(&HostType::Other).is_err());
    let bare = TypeSegment { ident: s("Vec"), args: vec![TypeArg::Other] };
    assert_eq!(get_nested_type(&bare).unwrap_err(), SchemaError::UnsupportedFieldType);
}

#[test]
fn literal_helpers() {
    let p = s("key");
    assert_eq!(get_lit_str(&Literal::Str(s("v")), &p).unwrap(), "v");
    let e = get_lit_str(&Literal::Bool(true), &p).unwrap_err();
    assert_eq!(e.kind, DiagKind::TypeMismatch);
    assert_eq!(e.key, "key");
    assert_eq!(get_lit_as_string(&Literal::Bool(true), &p).unwrap(), "true");
    assert_eq!(get_lit_as_string(&Literal::Bool(false), &p).unwrap(), "false");
    assert_eq!(get_lit_as_string(&Literal::Int(s("42"), s("42")), &p).unwrap(), "42");
    assert_eq!(get_lit_as_string(&Literal::Int(s("31"), s("0x1F")), &p).unwrap(), "0x1F");
    assert_eq!(get_lit_as_string(&Literal::Int(s("7"), s("7u16")), &p).unwrap(), "7u16");
    assert_eq!(get_lit_as_string(&Literal::Float(s("2.5"), s("2.5f32")), &p).unwrap(), "2.5f32");
    assert!(get_lit_as_string(&Literal::Ident(s("x")), &p).is_err());
    assert_eq!(get_lit_int(&Literal::Int(s("-128"), s("-128")), ScalarType::I8, &p).unwrap(), -128);
    assert_eq!(get_lit_int(&Literal::Int(s("18446744073709551615"), s("18446744073709551615")), ScalarType::U64, &p).unwrap(), 18446744073709551615);
    assert_eq!(get_lit_int(&Literal::Int(s("128"), s("128")), ScalarType::I8, &p).unwrap_err().kind, DiagKind::IntegerOutOfRange);
    assert_eq!(get_lit_int(&Literal::Str(s("1")), ScalarType::I8, &p).unwrap_err().kind, DiagKind::TypeMismatch);
    assert_eq!(get_lit_float(&Literal::Float(s("0.25"), s("0.25f64")), &p).unwrap(), "0.25");
    assert!(get_lit_float(&Literal::Int(s("1"), s("1")), &p).is_err());
    assert_eq!(get_lit_bool(&Literal::Bool(true), &p).unwrap(), true);
    assert!(get_lit_bool(&Literal::Str(s("true")), &p).is_err());
}

#[test]
fn sample_types() {
    let spec = NoField::schema();
    assert_eq!(spec.declared_path, "NoField");
    assert!(spec.fields.is_empty());
    assert!(yui::parse::parse(&vec![], &spec).is_ok());
    let t = Tuple(1, Some(s("x")));
    assert_eq!(t.clone(), t);
}

#[test]
fn build_schema_rejects_default_of_wrong_type() {
    let mut f = decl("f", path("i32", vec![]), None, false);
    f.default = Some(Literal::Str(s("abc")));
    assert_eq!(build_schema(&s("R"), &vec![f], &vec![], &vec![]).unwrap_err(), SchemaError::InvalidDefault);
    let mut g = decl("g", path("Option", vec![path("TestEnum", vec![])]), None, true);
    g.default = Some(Literal::Str(s("variant_z")));
    assert_eq!(build_schema(&s("R"), &vec![g], &vec![test_enum()], &vec![]).unwrap_err(), SchemaError::InvalidDefault);
    let mut h = decl("h", path("Option", vec![path("TestEnum", vec![])]), None, true);
    h.default = Some(Literal::Str(s("variant_c")));
    let spec = build_schema(&s("R"), &vec![h], &vec![test_enum()], &vec![]).unwrap();
    let v = yui::parse::parse(&vec![], &spec).unwrap();
    match v {
        yui::value::Value::Record(fs) => assert!(matches!(&fs[0].value, yui::value::Value::Variant(t) if t == "variant_c")),
        other => panic!("not a record: {:?}", other),
    }
    let mut k = decl("k", path("i32", vec![]), None, false);
    k.default = Some(Literal::Str(s("abc")));
    let input = DeclInput { ident: s("D"), data: DeclData::Struct(vec![k]) };
    assert_eq!(Attribute::from_ast(&input, &vec![], &vec![]).unwrap_err(), SchemaError::InvalidDefault);
}
