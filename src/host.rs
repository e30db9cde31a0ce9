use vstd::prelude::*;
use vstd::string::StrSliceExecFns;
use crate::diag::SchemaError;
use crate::convert::{convert_literal, lemma_literal_value_same, literal_value};
use crate::laws::defaults_valid;
use crate::meta::Literal;
use crate::schema::{EnumType, FieldKind, FieldSpec, RecordSpec, ScalarType, kind_same, opt_text_same};

verus! {

/// A declared field type, as the host's syntax gives it.
#[derive(Debug)]
pub enum HostType {
    /// A path such as `std::collections::HashMap<String, Kind>`.
    Path(Vec<TypeSegment>),
    /// Any other form of type (a reference, a tuple, an array).
    Other,
}

/// One segment of a type path: its name and its generic arguments.
#[derive(Debug)]
pub struct TypeSegment {
    pub ident: String,
    pub args: Vec<TypeArg>,
}

/// A generic argument of a path segment.
#[derive(Debug)]
pub enum TypeArg {
    Type(HostType),
    /// A lifetime, a constant or a binding.
    Other,
}

/// The first item of a list, or `error` when it is empty.
pub fn unwrap_punctuated_first<T, E>(items: &Vec<T>, error: E) -> (r: Result<&T, E>)
    ensures
        items.len() > 0 ==> r == Ok::<&T, E>(&items@[0]),
        items.len() == 0 ==> r == Err::<&T, E>(error),
{
    if items.len() > 0 {
        Ok(&items[0])
    } else {
        Err(error)
    }
}

/// The last item of a list, or `error` when it is empty.
pub fn unwrap_punctuated_last<T, E>(items: &Vec<T>, error: E) -> (r: Result<&T, E>)
    ensures
        items.len() > 0 ==> r == Ok::<&T, E>(&items@[items.len() - 1]),
        items.len() == 0 ==> r == Err::<&T, E>(error),
{
    if items.len() > 0 {
        Ok(&items[items.len() - 1])
    } else {
        Err(error)
    }
}

/// The `i`-th generic argument of a segment, where it is a type.
pub open spec fn type_arg(seg: &TypeSegment, i: int) -> Option<HostType> {
    if 0 <= i < seg.args.len() {
        match seg.args@[i] {
            TypeArg::Type(t) => Some(t),
            TypeArg::Other => None,
        }
    } else {
        None
    }
}

/// The type that a segment's first generic argument names (`T` in `Option<T>`).
pub fn get_nested_type(segment: &TypeSegment) -> (r: Result<&HostType, SchemaError>)
    ensures
        match type_arg(segment, 0) {
            Some(t) => r == Ok::<&HostType, SchemaError>(&t),
            None => r == Err::<&HostType, SchemaError>(SchemaError::UnsupportedFieldType),
        },
{
    match unwrap_punctuated_first(&segment.args, SchemaError::UnsupportedFieldType)? {
        TypeArg::Type(t) => Ok(t),
        TypeArg::Other => Err(SchemaError::UnsupportedFieldType),
    }
}

/// The segments of a path type.
pub fn unwrap_type_path(ty: &HostType) -> (r: Result<&Vec<TypeSegment>, SchemaError>)
    ensures
        match ty {
            HostType::Path(segs) => r == Ok::<&Vec<TypeSegment>, SchemaError>(segs),
            HostType::Other => r == Err::<&Vec<TypeSegment>, SchemaError>(
                SchemaError::UnsupportedFieldType,
            ),
        },
{
    match ty {
        HostType::Path(segs) => Ok(segs),
        HostType::Other => Err(SchemaError::UnsupportedFieldType),
    }
}

/// Whether a string reads exactly as a word.
pub fn is_word(s: &String, w: &str) -> (r: bool)
    ensures
        r == (s@ == w@),
{
    let a = s.as_str();
    let n = a.unicode_len();
    if n != w.unicode_len() {
        return false;
    }
    let mut i: usize = 0;
    while i < n
        invariant
            0 <= i <= n,
            n == a@.len(),
            n == w@.len(),
            a@ == s@,
            forall|j: int| 0 <= j < i ==> a@[j] == w@[j],
        decreases n - i,
    {
        if a.get_char(i) != w.get_char(i) {
            return false;
        }
        i += 1;
    }
    assert(a@ =~= w@);
    true
}

/// The primitive type that a type name denotes, by the fixed table of supported names.
pub open spec fn scalar_of(name: Seq<char>) -> Option<ScalarType> {
    if name == "String"@ {
        Some(ScalarType::Text)
    } else if name == "bool"@ {
        Some(ScalarType::Bool)
    } else if name == "f32"@ {
        Some(ScalarType::F32)
    } else if name == "f64"@ {
        Some(ScalarType::F64)
    } else if name == "i8"@ {
        Some(ScalarType::I8)
    } else if name == "i16"@ {
        Some(ScalarType::I16)
    } else if name == "i32"@ {
        Some(ScalarType::I32)
    } else if name == "i64"@ {
        Some(ScalarType::I64)
    } else if name == "u8"@ {
        Some(ScalarType::U8)
    } else if name == "u16"@ {
        Some(ScalarType::U16)
    } else if name == "u32"@ {
        Some(ScalarType::U32)
    } else if name == "u64"@ {
        Some(ScalarType::U64)
    } else {
        None
    }
}

/// Looks a type name up in the table of supported primitive types.
pub fn scalar_type(name: &String) -> (r: Option<ScalarType>)
    ensures
        r == scalar_of(name@),
{
    if is_word(name, "String") {
        Some(ScalarType::Text)
    } else if is_word(name, "bool") {
        Some(ScalarType::Bool)
    } else if is_word(name, "f32") {
        Some(ScalarType::F32)
    } else if is_word(name, "f64") {
        Some(ScalarType::F64)
    } else if is_word(name, "i8") {
        Some(ScalarType::I8)
    } else if is_word(name, "i16") {
        Some(ScalarType::I16)
    } else if is_word(name, "i32") {
        Some(ScalarType::I32)
    } else if is_word(name, "i64") {
        Some(ScalarType::I64)
    } else if is_word(name, "u8") {
        Some(ScalarType::U8)
    } else if is_word(name, "u16") {
        Some(ScalarType::U16)
    } else if is_word(name, "u32") {
        Some(ScalarType::U32)
    } else if is_word(name, "u64") {
        Some(ScalarType::U64)
    } else {
        None
    }
}

/// The first enumerated type of the table with the given name.
pub open spec fn find_enum(enums: Seq<EnumType>, name: Seq<char>) -> Option<int> {
    if exists|i: int| 0 <= i < enums.len() && (#[trigger] enums[i]).name@ == name {
        Some(
            choose|i: int|
                0 <= i < enums.len() && (#[trigger] enums[i]).name@ == name && forall|m: int|
                    0 <= m < i ==> (#[trigger] enums[m]).name@ != name,
        )
    } else {
        None
    }
}

/// The first record schema of the table that answers to the given path.
pub open spec fn find_record(records: Seq<RecordSpec>, name: Seq<char>) -> Option<int> {
    if exists|i: int| 0 <= i < records.len() && (#[trigger] records[i]).declared_path@ == name {
        Some(
            choose|i: int|
                0 <= i < records.len() && (#[trigger] records[i]).declared_path@ == name
                    && forall|m: int| 0 <= m < i ==> (#[trigger] records[m]).declared_path@ != name,
        )
    } else {
        None
    }
}

/// The kind of a field whose type is named by a path without a wrapper: an enumerated type,
/// a record that a schema answers to, or a primitive type.
pub open spec fn classify_leaf(
    name: Seq<char>,
    enum_value: bool,
    enums: Seq<EnumType>,
    records: Seq<RecordSpec>,
) -> Result<FieldKind, SchemaError> {
    if enum_value {
        match find_enum(enums, name) {
            Some(i) => Ok(FieldKind::EnumValue(enums[i])),
            None => Err(SchemaError::UnsupportedFieldType),
        }
    } else {
        match find_record(records, name) {
            Some(i) => Ok(FieldKind::Nested(records[i])),
            None => match scalar_of(name) {
                Some(t) => Ok(FieldKind::Scalar(t)),
                None => Err(SchemaError::UnsupportedFieldType),
            },
        }
    }
}

/// The kind of a field of the given declared type.
///
/// The last segment of the type's path decides: `Option<T>` is optional, `Vec<T>` a
/// sequence, `HashMap<K, V>` or `BTreeMap<K, V>` a mapping; a type flagged as enumerated
/// takes its variant table; a type that a record schema answers to is nested; any other
/// name is looked up in the table of primitive types.
pub open spec fn classify(
    ty: &HostType,
    enum_value: bool,
    enums: Seq<EnumType>,
    records: Seq<RecordSpec>,
) -> Result<FieldKind, SchemaError>
    decreases ty,
{
    match ty {
        HostType::Other => Err(SchemaError::UnsupportedFieldType),
        HostType::Path(segs) => if segs.len() == 0 {
            Err(SchemaError::UnsupportedFieldType)
        } else {
            let seg = segs@[segs.len() - 1];
            let name = seg.ident@;
            if name == "Option"@ || name == "Vec"@ {
                if seg.args.len() >= 1 {
                    match seg.args@[0] {
                        TypeArg::Type(t) => match classify(&t, enum_value, enums, records) {
                            Ok(k) => if name == "Option"@ {
                                Ok(FieldKind::Optional(Box::new(k)))
                            } else {
                                Ok(FieldKind::Sequence(Box::new(k)))
                            },
                            Err(e) => Err(e),
                        },
                        TypeArg::Other => Err(SchemaError::UnsupportedFieldType),
                    }
                } else {
                    Err(SchemaError::UnsupportedFieldType)
                }
            } else if name == "HashMap"@ || name == "BTreeMap"@ {
                if seg.args.len() == 2 {
                    match (seg.args@[0], seg.args@[1]) {
                        (TypeArg::Type(kt), TypeArg::Type(vt)) => match classify(
                            &kt,
                            false,
                            enums,
                            records,
                        ) {
                            Ok(k) => match classify(&vt, enum_value, enums, records) {
                                Ok(v) => Ok(FieldKind::Mapping(Box::new(k), Box::new(v))),
                                Err(e) => Err(e),
                            },
                            Err(e) => Err(e),
                        },
                        _ => Err(SchemaError::UnsupportedFieldType),
                    }
                } else {
                    Err(SchemaError::UnsupportedFieldType)
                }
            } else {
                classify_leaf(name, enum_value, enums, records)
            }
        },
    }
}

/// Whether an exec outcome of classification matches its model.
pub open spec fn kind_outcome_same(r: Result<FieldKind, SchemaError>, m: Result<FieldKind, SchemaError>) -> bool {
    match (r, m) {
        (Ok(a), Ok(b)) => kind_same(&a, &b),
        (Err(x), Err(y)) => x == y,
        _ => false,
    }
}

fn lookup_enum(enums: &Vec<EnumType>, name: &String) -> (r: Option<usize>)
    ensures
        match r {
            Some(i) => find_enum(enums@, name@) == Some(i as int) && i < enums.len(),
            None => find_enum(enums@, name@) is None,
        },
{
    let mut i: usize = 0;
    while i < enums.len()
        invariant
            0 <= i <= enums.len(),
            forall|m: int| 0 <= m < i ==> (#[trigger] enums@[m]).name@ != name@,
        decreases enums.len() - i,
    {
        if enums[i].name == *name {
            let ghost c = choose|c: int|
                0 <= c < enums@.len() && (#[trigger] enums@[c]).name@ == name@ && forall|m: int|
                    0 <= m < c ==> (#[trigger] enums@[m]).name@ != name@;
            assert(0 <= i < enums@.len() && enums@[i as int].name@ == name@);
            assert(c == i) by {
                if c < i {
                } else if c > i {
                    assert(enums@[i as int].name@ != name@);
                }
            }
            return Some(i);
        }
        i += 1;
    }
    None
}

fn lookup_record(records: &Vec<RecordSpec>, name: &String) -> (r: Option<usize>)
    ensures
        match r {
            Some(i) => find_record(records@, name@) == Some(i as int) && i < records.len(),
            None => find_record(records@, name@) is None,
        },
{
    let mut i: usize = 0;
    while i < records.len()
        invariant
            0 <= i <= records.len(),
            forall|m: int| 0 <= m < i ==> (#[trigger] records@[m]).declared_path@ != name@,
        decreases records.len() - i,
    {
        if records[i].declared_path == *name {
            let ghost c = choose|c: int|
                0 <= c < records@.len() && (#[trigger] records@[c]).declared_path@ == name@
                    && forall|m: int| 0 <= m < c ==> (#[trigger] records@[m]).declared_path@ != name@;
            assert(0 <= i < records@.len() && records@[i as int].declared_path@ == name@);
            assert(c == i) by {
                if c > i {
                    assert(records@[i as int].declared_path@ != name@);
                }
            }
            return Some(i);
        }
        i += 1;
    }
    None
}

/// Classifies a declared field type into a field kind.
pub fn classify_type(
    ty: &HostType,
    enum_value: bool,
    enums: &Vec<EnumType>,
    records: &Vec<RecordSpec>,
) -> (r: Result<FieldKind, SchemaError>)
    ensures
        kind_outcome_same(r, classify(ty, enum_value, enums@, records@)),
    decreases ty,
{
    let segs = match ty {
        HostType::Path(segs) => segs,
        HostType::Other => {
            return Err(SchemaError::UnsupportedFieldType);
        },
    };
    if segs.len() == 0 {
        return Err(SchemaError::UnsupportedFieldType);
    }
    let seg = &segs[segs.len() - 1];
    let name = &seg.ident;
    assert(decreases_to!(ty => segs));
    assert(decreases_to!(segs => segs@[segs.len() - 1]));
    let is_option = is_word(name, "Option");
    if is_option || is_word(name, "Vec") {
        if seg.args.len() < 1 {
            return Err(SchemaError::UnsupportedFieldType);
        }
        match &seg.args[0] {
            TypeArg::Type(t) => {
                assert(decreases_to!(seg => seg.args@[0]));
                match classify_type(t, enum_value, enums, records) {
                    Ok(k) => if is_option {
                        Ok(FieldKind::Optional(Box::new(k)))
                    } else {
                        Ok(FieldKind::Sequence(Box::new(k)))
                    },
                    Err(e) => Err(e),
                }
            },
            TypeArg::Other => Err(SchemaError::UnsupportedFieldType),
        }
    } else if is_word(name, "HashMap") || is_word(name, "BTreeMap") {
        if seg.args.len() != 2 {
            return Err(SchemaError::UnsupportedFieldType);
        }
        classify_map(seg, enum_value, enums, records)
    } else {
        classify_name(name, enum_value, enums, records)
    }
}

#[verifier::rlimit(80)]
fn classify_map(
    seg: &TypeSegment,
    enum_value: bool,
    enums: &Vec<EnumType>,
    records: &Vec<RecordSpec>,
) -> (r: Result<FieldKind, SchemaError>)
    requires
        seg.args.len() == 2,
    ensures
        kind_outcome_same(
            r,
            match (seg.args@[0], seg.args@[1]) {
                (TypeArg::Type(kt), TypeArg::Type(vt)) => match classify(&kt, false, enums@, records@) {
                    Ok(k) => match classify(&vt, enum_value, enums@, records@) {
                        Ok(v) => Ok(FieldKind::Mapping(Box::new(k), Box::new(v))),
                        Err(e) => Err(e),
                    },
                    Err(e) => Err(e),
                },
                _ => Err(SchemaError::UnsupportedFieldType),
            },
        ),
    decreases seg,
{
    match (&seg.args[0], &seg.args[1]) {
        (TypeArg::Type(kt), TypeArg::Type(vt)) => {
            assert(decreases_to!(seg => seg.args@[0]));
            assert(decreases_to!(seg => seg.args@[1]));
            match classify_type(kt, false, enums, records) {
                Ok(k) => match classify_type(vt, enum_value, enums, records) {
                    Ok(v) => Ok(FieldKind::Mapping(Box::new(k), Box::new(v))),
                    Err(e) => Err(e),
                },
                Err(e) => Err(e),
            }
        },
        _ => Err(SchemaError::UnsupportedFieldType),
    }
}

fn classify_name(
    name: &String,
    enum_value: bool,
    enums: &Vec<EnumType>,
    records: &Vec<RecordSpec>,
) -> (r: Result<FieldKind, SchemaError>)
    ensures
        kind_outcome_same(r, classify_leaf(name@, enum_value, enums@, records@)),
{
    if enum_value {
        match lookup_enum(enums, name) {
            Some(i) => Ok(FieldKind::EnumValue(enums[i].copy())),
            None => Err(SchemaError::UnsupportedFieldType),
        }
    } else {
        match lookup_record(records, name) {
            Some(i) => Ok(FieldKind::Nested(records[i].copy())),
            None => match scalar_type(name) {
                Some(t) => Ok(FieldKind::Scalar(t)),
                None => Err(SchemaError::UnsupportedFieldType),
            },
        }
    }
}

/// A declared field of a record type, with its modifiers.
#[derive(Debug)]
pub struct FieldDecl {
    pub name: String,
    pub ty: HostType,
    /// The key that names the field in an annotation, where it differs from its name.
    pub alias: Option<String>,
    /// Whether the field's type (or, for a mapping, its value type) is enumerated.
    pub enum_value: bool,
    pub default: Option<Literal>,
}

/// The kind that a declared field takes.
pub open spec fn decl_kind(
    d: &FieldDecl,
    enums: Seq<EnumType>,
    records: Seq<RecordSpec>,
) -> Result<FieldKind, SchemaError> {
    classify(&d.ty, d.enum_value, enums, records)
}

/// The outcome of building one declared field: its kind, or the error of its type or of a
/// default that its kind does not accept.
pub open spec fn decl_outcome(
    d: &FieldDecl,
    enums: Seq<EnumType>,
    records: Seq<RecordSpec>,
) -> Result<FieldKind, SchemaError> {
    match decl_kind(d, enums, records) {
        Err(e) => Err(e),
        Ok(k) => match d.default {
            Some(x) => if literal_value(&k, x@) is Ok {
                Ok(k)
            } else {
                Err(SchemaError::InvalidDefault)
            },
            None => Ok(k),
        },
    }
}

/// Whether a built field matches its declaration.
pub open spec fn field_built(
    f: &FieldSpec,
    d: &FieldDecl,
    enums: Seq<EnumType>,
    records: Seq<RecordSpec>,
) -> bool {
    &&& f.field_name@ == d.name@
    &&& opt_text_same(f.alias, d.alias)
    &&& decl_kind(d, enums, records) matches Ok(k) && kind_same(&f.kind, &k)
    &&& match (f.default, d.default) {
        (Some(x), Some(y)) => x@ == y@,
        (None, None) => true,
        _ => false,
    }
}

/// Builds the schema of a record type from its declared fields, once, ahead of any parse.
///
/// It succeeds exactly when every field's type can be classified and every default is a
/// literal that its field's kind accepts; it then holds one field per declaration, in order.
/// Otherwise it fails with the error of the first field that cannot be built.
pub fn build_schema(
    path: &String,
    fields: &Vec<FieldDecl>,
    enums: &Vec<EnumType>,
    records: &Vec<RecordSpec>,
) -> (r: Result<RecordSpec, SchemaError>)
    ensures
        r is Ok <==> forall|j: int|
            0 <= j < fields.len() ==> decl_outcome(&(#[trigger] fields@[j]), enums@, records@) is Ok,
        r matches Ok(s) ==> {
            &&& s.declared_path@ == path@
            &&& s.fields.len() == fields.len()
            &&& defaults_valid(&s)
            &&& forall|j: int|
                0 <= j < fields.len() ==> field_built(
                    &(#[trigger] s.fields@[j]),
                    &fields@[j],
                    enums@,
                    records@,
                )
        },
        r matches Err(e) ==> exists|j: int|
            0 <= j < fields.len() && decl_outcome(&(#[trigger] fields@[j]), enums@, records@)
                == Err::<FieldKind, SchemaError>(e),
{
    let mut out: Vec<FieldSpec> = Vec::new();
    let mut i: usize = 0;
    while i < fields.len()
        invariant
            0 <= i <= fields.len(),
            out.len() == i,
            forall|j: int|
                0 <= j < i ==> field_built(&(#[trigger] out@[j]), &fields@[j], enums@, records@),
            forall|j: int|
                0 <= j < i ==> match (#[trigger] out@[j]).default {
                    Some(x) => literal_value(&out@[j].kind, x@) is Ok,
                    None => true,
                },
            forall|j: int| 0 <= j < i ==> decl_outcome(&(#[trigger] fields@[j]), enums@, records@) is Ok,
        decreases fields.len() - i,
    {
        let d = &fields[i];
        let kind = match classify_type(&d.ty, d.enum_value, enums, records) {
            Ok(k) => k,
            Err(e) => {
                assert(decl_outcome(&fields@[i as int], enums@, records@) == Err::<FieldKind, SchemaError>(e));
                return Err(e);
            },
        };
        if let Some(l) = &d.default {
            proof {
                lemma_literal_value_same(&kind, &decl_kind(d, enums@, records@)->Ok_0, l@);
            }
            if let Err(_) = convert_literal(&kind, l) {
                assert(decl_outcome(&fields@[i as int], enums@, records@) == Err::<FieldKind, SchemaError>(
                    SchemaError::InvalidDefault,
                ));
                return Err(SchemaError::InvalidDefault);
            }
        }
        let default = match &d.default {
            Some(l) => Some(l.copy()),
            None => None,
        };
        let alias = match &d.alias {
            Some(a) => Some(a.clone()),
            None => None,
        };
        out.push(FieldSpec { field_name: d.name.clone(), alias, kind, default });
        i += 1;
    }
    let r = RecordSpec { declared_path: path.clone(), fields: out };
    assert(defaults_valid(&r));
    Ok(r)
}

/// The body of a declaration handed to a derive: a struct's fields, or another form.
#[derive(Debug)]
pub enum DeclData {
    Struct(Vec<FieldDecl>),
    Enum,
    Union,
}

/// A declaration handed to a derive: its name and body.
#[derive(Debug)]
pub struct DeclInput {
    pub ident: String,
    pub data: DeclData,
}

/// A record type that answers to an annotation: its name, the path it answers to, and its
/// schema.
#[derive(Debug)]
pub struct Attribute {
    pub ident: String,
    pub path: String,
    pub schema: RecordSpec,
}

impl Attribute {
    /// Reads a struct declaration into the schema of the annotation that it answers to,
    /// under its own name.
    pub fn from_ast(
        input: &DeclInput,
        enums: &Vec<EnumType>,
        records: &Vec<RecordSpec>,
    ) -> (r: Result<Attribute, SchemaError>)
        ensures
            !(input.data is Struct) ==> r == Err::<Attribute, SchemaError>(SchemaError::NotAStruct),
            input.data matches DeclData::Struct(fields) ==> {
                &&& (r is Ok <==> forall|j: int|
                    0 <= j < fields.len() ==> decl_outcome(&(#[trigger] fields@[j]), enums@, records@) is Ok)
                &&& r matches Ok(a) ==> {
                    &&& a.ident@ == input.ident@
                    &&& a.path@ == input.ident@
                    &&& a.schema.declared_path@ == input.ident@
                    &&& a.schema.fields.len() == fields.len()
                    &&& defaults_valid(&a.schema)
                    &&& forall|j: int|
                        0 <= j < fields.len() ==> field_built(
                            &(#[trigger] a.schema.fields@[j]),
                            &fields@[j],
                            enums@,
                            records@,
                        )
                }
                &&& r matches Err(e) ==> exists|j: int|
                    0 <= j < fields.len() && decl_outcome(&(#[trigger] fields@[j]), enums@, records@)
                        == Err::<FieldKind, SchemaError>(e)
            },
    {
        match &input.data {
            DeclData::Struct(fields) => {
                let path = input.ident.clone();
                match build_schema(&path, fields, enums, records) {
                    Ok(schema) => Ok(Attribute { ident: input.ident.clone(), path, schema }),
                    Err(e) => Err(e),
                }
            },
            _ => Err(SchemaError::NotAStruct),
        }
    }
}

} // verus!
