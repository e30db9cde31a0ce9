use vstd::prelude::*;
use crate::meta::Literal;

verus! {

/// A primitive type that a scalar field may have.
#[derive(Clone, Copy, PartialEq, Eq, Debug)]
pub enum ScalarType {
    Text,
    Bool,
    F32,
    F64,
    I8,
    I16,
    I32,
    I64,
    U8,
    U16,
    U32,
    U64,
}

impl ScalarType {
    /// Whether this is one of the integer types.
    pub open spec fn is_integer(self) -> bool {
        !(self is Text || self is Bool || self is F32 || self is F64)
    }

    /// The least value of an integer type.
    pub open spec fn min_value(self) -> int {
        match self {
            ScalarType::I8 => -0x80,
            ScalarType::I16 => -0x8000,
            ScalarType::I32 => -0x8000_0000,
            ScalarType::I64 => -0x8000_0000_0000_0000,
            _ => 0,
        }
    }

    /// The greatest value of an integer type.
    pub open spec fn max_value(self) -> int {
        match self {
            ScalarType::I8 => 0x7f,
            ScalarType::I16 => 0x7fff,
            ScalarType::I32 => 0x7fff_ffff,
            ScalarType::I64 => 0x7fff_ffff_ffff_ffff,
            ScalarType::U8 => 0xff,
            ScalarType::U16 => 0xffff,
            ScalarType::U32 => 0xffff_ffff,
            ScalarType::U64 => 0xffff_ffff_ffff_ffff,
            _ => 0,
        }
    }
}

/// An enumerated type: its name and the names of its variants.
#[derive(Clone, Debug, PartialEq)]
pub struct EnumType {
    pub name: String,
    pub variants: Vec<String>,
}

impl EnumType {
    /// Whether `t` names one of the variants.
    pub open spec fn has_variant(&self, t: Seq<char>) -> bool {
        exists|i: int| 0 <= i < self.variants.len() && (#[trigger] self.variants@[i])@ == t
    }
}

/// The shape of the value that a field takes.
#[derive(Debug)]
pub enum FieldKind {
    Scalar(ScalarType),
    Optional(Box<FieldKind>),
    EnumValue(EnumType),
    Nested(RecordSpec),
    Sequence(Box<FieldKind>),
    Mapping(Box<FieldKind>, Box<FieldKind>),
}

/// One field of a record: its name, the key it is looked up by, its kind and its default.
#[derive(Debug)]
pub struct FieldSpec {
    pub field_name: String,
    pub alias: Option<String>,
    pub kind: FieldKind,
    pub default: Option<Literal>,
}

impl FieldSpec {
    /// The key that names this field in an annotation: the alias when there is one.
    pub open spec fn key(&self) -> Seq<char> {
        match self.alias {
            Some(a) => a@,
            None => self.field_name@,
        }
    }
}

/// The schema of one record: the path it answers to and its fields in order.
#[derive(Debug)]
pub struct RecordSpec {
    pub declared_path: String,
    pub fields: Vec<FieldSpec>,
}

/// The lookup key of a field, as parsing and emission both use it.
pub fn field_key(f: &FieldSpec) -> (r: &String)
    ensures
        r@ == f.key(),
{
    match &f.alias {
        Some(a) => a,
        None => &f.field_name,
    }
}

/// Whether two optional strings read the same.
pub open spec fn opt_text_same(a: Option<String>, b: Option<String>) -> bool {
    match (a, b) {
        (Some(x), Some(y)) => x@ == y@,
        (None, None) => true,
        _ => false,
    }
}

/// Whether two enumerated types have the same name and variant names.
pub open spec fn enum_same(a: &EnumType, b: &EnumType) -> bool {
    &&& a.name@ == b.name@
    &&& a.variants.len() == b.variants.len()
    &&& forall|i: int| 0 <= i < a.variants.len() ==> (#[trigger] a.variants@[i])@ == b.variants@[i]@
}

/// Whether two field kinds have the same structure and texts.
pub open spec fn kind_same(a: &FieldKind, b: &FieldKind) -> bool
    decreases a, 0nat,
{
    match (a, b) {
        (FieldKind::Scalar(x), FieldKind::Scalar(y)) => x == y,
        (FieldKind::Optional(x), FieldKind::Optional(y)) => kind_same(x, y),
        (FieldKind::EnumValue(x), FieldKind::EnumValue(y)) => enum_same(x, y),
        (FieldKind::Nested(x), FieldKind::Nested(y)) => spec_same(x, y),
        (FieldKind::Sequence(x), FieldKind::Sequence(y)) => kind_same(x, y),
        (FieldKind::Mapping(x1, x2), FieldKind::Mapping(y1, y2)) => kind_same(x1, y1) && kind_same(
            x2,
            y2,
        ),
        _ => false,
    }
}

/// Whether two fields have the same name, alias, kind and default.
pub open spec fn field_same(a: &FieldSpec, b: &FieldSpec) -> bool
    decreases a, 0nat,
{
    &&& a.field_name@ == b.field_name@
    &&& opt_text_same(a.alias, b.alias)
    &&& kind_same(&a.kind, &b.kind)
    &&& match (a.default, b.default) {
        (Some(x), Some(y)) => x@ == y@,
        (None, None) => true,
        _ => false,
    }
}

/// Whether two record schemas have the same path and the same fields in the same order.
pub open spec fn spec_same(a: &RecordSpec, b: &RecordSpec) -> bool
    decreases a, 1nat,
{
    &&& a.declared_path@ == b.declared_path@
    &&& a.fields.len() == b.fields.len()
    &&& forall|j: int|
        0 <= j < a.fields.len() ==> field_same(&(#[trigger] a.fields@[j]), &b.fields@[j])
}

fn copy_text(a: &Option<String>) -> (r: Option<String>)
    ensures
        opt_text_same(r, *a),
{
    match a {
        Some(x) => Some(x.clone()),
        None => None,
    }
}

impl EnumType {
    /// A copy of this enumerated type.
    pub fn copy(&self) -> (r: EnumType)
        ensures
            enum_same(&r, self),
    {
        let mut variants: Vec<String> = Vec::new();
        let mut i: usize = 0;
        while i < self.variants.len()
            invariant
                0 <= i <= self.variants.len(),
                variants.len() == i,
                forall|j: int| 0 <= j < i ==> (#[trigger] variants@[j])@ == self.variants@[j]@,
            decreases self.variants.len() - i,
        {
            variants.push(self.variants[i].clone());
            i += 1;
        }
        EnumType { name: self.name.clone(), variants }
    }
}

impl FieldKind {
    /// A deep copy of this kind.
    pub fn copy(&self) -> (r: FieldKind)
        ensures
            kind_same(&r, self),
        decreases self, 0nat,
    {
        match self {
            FieldKind::Scalar(t) => FieldKind::Scalar(*t),
            FieldKind::Optional(x) => FieldKind::Optional(Box::new(x.copy())),
            FieldKind::EnumValue(e) => FieldKind::EnumValue(e.copy()),
            FieldKind::Nested(sub) => FieldKind::Nested(sub.copy()),
            FieldKind::Sequence(x) => FieldKind::Sequence(Box::new(x.copy())),
            FieldKind::Mapping(k, v) => FieldKind::Mapping(Box::new(k.copy()), Box::new(v.copy())),
        }
    }
}

impl FieldSpec {
    /// A deep copy of this field.
    pub fn copy(&self) -> (r: FieldSpec)
        ensures
            field_same(&r, self),
        decreases self, 0nat,
    {
        let default = match &self.default {
            Some(d) => Some(d.copy()),
            None => None,
        };
        FieldSpec {
            field_name: self.field_name.clone(),
            alias: copy_text(&self.alias),
            kind: self.kind.copy(),
            default,
        }
    }
}

impl RecordSpec {
    /// A deep copy of this schema.
    pub fn copy(&self) -> (r: RecordSpec)
        ensures
            spec_same(&r, self),
        decreases self, 1nat,
    {
        let mut fields: Vec<FieldSpec> = Vec::new();
        let mut i: usize = 0;
        while i < self.fields.len()
            invariant
                0 <= i <= self.fields.len(),
                fields.len() == i,
                forall|j: int| 0 <= j < i ==> field_same(&(#[trigger] fields@[j]), &self.fields@[j]),
            decreases self.fields.len() - i,
        {
            assert(decreases_to!(self => self.fields[i as int]));
            fields.push(self.fields[i].copy());
            i += 1;
        }
        RecordSpec { declared_path: self.declared_path.clone(), fields }
    }
}

} // verus!
